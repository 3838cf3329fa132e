//! The table of profile defaults that the command line can show.

use vstd::prelude::*;
use vstd::string::StringExecFns;

use crate::descent::profiles::{is_gaming, is_production, is_server, Profile};
use crate::text::{
    decimal, decimal_text, left_aligned, push_left, push_right, right_aligned, shortened,
    thousandths, thousandths_text,
};

verus! {

/// A row of the table: a label and a value for each profile.
pub open spec fn row(label: Seq<char>, gaming: Seq<char>, production: Seq<char>, server: Seq<char>) -> Seq<char> {
    "  "@ + left_aligned(label, 30) + " "@ + right_aligned(gaming, 12) + " "@ + right_aligned(
        production,
        15,
    ) + " "@ + right_aligned(server, 15) + "\n"@
}

fn row_text(label: &str, gaming: &str, production: &str, server: &str) -> (r: String)
    ensures
        r@ == row(label@, gaming@, production@, server@),
{
    let mut out: String = "  ".to_owned();
    push_left(&mut out, label, 30);
    out.append(" ");
    push_right(&mut out, gaming, 12);
    out.append(" ");
    push_right(&mut out, production, 15);
    out.append(" ");
    push_right(&mut out, server, 15);
    out.append("\n");
    out
}

/// A row of whole numbers.
pub open spec fn number_row(label: Seq<char>, gaming: u64, production: u64, server: u64) -> Seq<char> {
    row(label, decimal(gaming as nat), decimal(production as nat), decimal(server as nat))
}

fn number_row_text(label: &str, gaming: u64, production: u64, server: u64) -> (r: String)
    ensures
        r@ == number_row(label@, gaming, production, server),
{
    row_text(
        label,
        decimal_text(gaming).as_str(),
        decimal_text(production).as_str(),
        decimal_text(server).as_str(),
    )
}

/// Thousandths with `places` digits behind the point.
pub open spec fn fixed(n: u64, places: int) -> Seq<char> {
    thousandths(n as nat).take(thousandths(n as nat).len() - (3 - places))
}

fn fixed_text(n: u64, places: usize) -> (r: String)
    requires
        places <= 3,
    ensures
        r@ == fixed(n, places as int),
{
    let full = thousandths_text(n);
    shortened(full.as_str(), 3 - places)
}

/// A row of thousandths.
pub open spec fn fixed_row(label: Seq<char>, places: int, gaming: u64, production: u64, server: u64) -> Seq<char> {
    row(label, fixed(gaming, places), fixed(production, places), fixed(server, places))
}

fn fixed_row_text(label: &str, places: usize, gaming: u64, production: u64, server: u64) -> (r: String)
    requires
        places <= 3,
    ensures
        r@ == fixed_row(label@, places as int, gaming, production, server),
{
    row_text(
        label,
        fixed_text(gaming, places).as_str(),
        fixed_text(production, places).as_str(),
        fixed_text(server, places).as_str(),
    )
}

/// The rows on the PIE controller.
pub open spec fn pie_section() -> Seq<char> {
    "Core PIE Parameters:\n"@ + row("Parameter"@, "Gaming"@, "Production"@, "Server"@) + number_row(
        "response_ms (update interval)"@,
        20,
        20,
        50,
    ) + number_row("pie_alpha (proportional)"@, 8, 8, 16) + number_row(
        "pie_beta (integral)"@,
        4,
        4,
        8,
    ) + "\n"@
}

fn pie_section_text(g: &Profile, p: &Profile, s: &Profile) -> (r: String)
    requires
        is_gaming(*g),
        is_production(*p),
        is_server(*s),
    ensures
        r@ == pie_section(),
{
    let mut out: String = "Core PIE Parameters:\n".to_owned();
    out.append(row_text("Parameter", "Gaming", "Production", "Server").as_str());
    out.append(
        number_row_text(
            "response_ms (update interval)",
            g.response_ms,
            p.response_ms,
            s.response_ms,
        ).as_str(),
    );
    out.append(
        number_row_text("pie_alpha (proportional)", g.pie_alpha, p.pie_alpha, s.pie_alpha).as_str(),
    );
    out.append(number_row_text("pie_beta (integral)", g.pie_beta, p.pie_beta, s.pie_beta).as_str());
    out.append("\n");
    out
}

/// The rows on target latencies, in microseconds.
pub open spec fn target_section() -> Seq<char> {
    "Target Latencies (microseconds):\n"@ + row("Class"@, "Gaming"@, "Production"@, "Server"@)
        + number_row("LATENCY_CRITICAL"@, 500, 1000, 2000) + number_row("NORMAL"@, 2000, 5000, 10000)
        + number_row("HOG"@, 10000, 20000, 50000) + number_row("BACKGROUND"@, 50000, 100000, 200000)
        + "\n"@
}

fn target_section_text(g: &Profile, p: &Profile, s: &Profile) -> (r: String)
    requires
        is_gaming(*g),
        is_production(*p),
        is_server(*s),
    ensures
        r@ == target_section(),
{
    let gt = g.target_latencies_ns;
    let pt = p.target_latencies_ns;
    let st = s.target_latencies_ns;
    let mut out: String = "Target Latencies (microseconds):\n".to_owned();
    out.append(row_text("Class", "Gaming", "Production", "Server").as_str());
    out.append(
        number_row_text("LATENCY_CRITICAL", gt[0] / 1000, pt[0] / 1000, st[0] / 1000).as_str(),
    );
    out.append(number_row_text("NORMAL", gt[1] / 1000, pt[1] / 1000, st[1] / 1000).as_str());
    out.append(number_row_text("HOG", gt[2] / 1000, pt[2] / 1000, st[2] / 1000).as_str());
    out.append(number_row_text("BACKGROUND", gt[3] / 1000, pt[3] / 1000, st[3] / 1000).as_str());
    out.append("\n");
    out
}

/// The rows on autorate control.
pub open spec fn autorate_section() -> Seq<char> {
    "CAKE Autorate Parameters:\n"@ + row("Parameter"@, "Gaming"@, "Production"@, "Server"@)
        + fixed_row("high_load_threshold"@, 2, 750, 750, 800) + fixed_row(
        "low_load_threshold"@,
        2,
        250,
        300,
        300,
    ) + fixed_row("ramp_up_rate"@, 2, 1080, 1040, 1020) + fixed_row(
        "ramp_down_rate"@,
        2,
        750,
        800,
        900,
    ) + fixed_row("decay_rate"@, 3, 990, 990, 995) + number_row("refractory_up_ms"@, 100, 75, 200)
        + number_row("refractory_down_ms"@, 50, 25, 100) + fixed_row(
        "bufferbloat_threshold"@,
        1,
        1600,
        1500,
        1800,
    ) + "\n"@
}

fn autorate_section_text(g: &Profile, p: &Profile, s: &Profile) -> (r: String)
    requires
        is_gaming(*g),
        is_production(*p),
        is_server(*s),
    ensures
        r@ == autorate_section(),
{
    let ga = g.autorate;
    let pa = p.autorate;
    let sa = s.autorate;
    let mut out: String = "CAKE Autorate Parameters:\n".to_owned();
    out.append(row_text("Parameter", "Gaming", "Production", "Server").as_str());
    out.append(
        fixed_row_text(
            "high_load_threshold",
            2,
            ga.high_load_threshold,
            pa.high_load_threshold,
            sa.high_load_threshold,
        ).as_str(),
    );
    out.append(
        fixed_row_text(
            "low_load_threshold",
            2,
            ga.low_load_threshold,
            pa.low_load_threshold,
            sa.low_load_threshold,
        ).as_str(),
    );
    out.append(
        fixed_row_text("ramp_up_rate", 2, ga.ramp_up_rate, pa.ramp_up_rate, sa.ramp_up_rate).as_str(),
    );
    out.append(
        fixed_row_text(
            "ramp_down_rate",
            2,
            ga.ramp_down_rate,
            pa.ramp_down_rate,
            sa.ramp_down_rate,
        ).as_str(),
    );
    out.append(
        fixed_row_text("decay_rate", 3, ga.decay_rate, pa.decay_rate, sa.decay_rate).as_str(),
    );
    out.append(
        number_row_text(
            "refractory_up_ms",
            ga.adjust_up_refractory_ms,
            pa.adjust_up_refractory_ms,
            sa.adjust_up_refractory_ms,
        ).as_str(),
    );
    out.append(
        number_row_text(
            "refractory_down_ms",
            ga.adjust_down_refractory_ms,
            pa.adjust_down_refractory_ms,
            sa.adjust_down_refractory_ms,
        ).as_str(),
    );
    out.append(
        fixed_row_text(
            "bufferbloat_threshold",
            1,
            ga.bufferbloat_threshold,
            pa.bufferbloat_threshold,
            sa.bufferbloat_threshold,
        ).as_str(),
    );
    out.append("\n");
    out
}

/// What the profiles are for, and how to select one.
pub open spec fn description_section() -> Seq<char> {
    "Profile Descriptions:\n"@
        + "  gaming:       Optimized for low-latency audio, games, and compositors.\n"@
        + "                Tight latency targets (500µs for critical), moderate response.\n"@
        + "  production:   Balanced for general desktop use. Good for mixed workloads.\n"@
        + "                Moderate latency targets with balanced PIE tuning.\n"@
        + "  server:       Conservative, throughput-focused. Best for background tasks.\n"@
        + "                High latency tolerance, gentle parameter adjustments.\n\n"@
        + "Use --profile <name> to select a base profile, then override specific\n"@
        + "parameters with --response-ms, --pie-alpha, --target-latency-*, etc.\n"@
}

fn description_section_text() -> (r: String)
    ensures
        r@ == description_section(),
{
    let mut out: String = "Profile Descriptions:\n".to_owned();
    out.append("  gaming:       Optimized for low-latency audio, games, and compositors.\n");
    out.append("                Tight latency targets (500µs for critical), moderate response.\n");
    out.append("  production:   Balanced for general desktop use. Good for mixed workloads.\n");
    out.append("                Moderate latency targets with balanced PIE tuning.\n");
    out.append("  server:       Conservative, throughput-focused. Best for background tasks.\n");
    out.append("                High latency tolerance, gentle parameter adjustments.\n\n");
    out.append("Use --profile <name> to select a base profile, then override specific\n");
    out.append("parameters with --response-ms, --pie-alpha, --target-latency-*, etc.\n");
    out
}

/// The defaults of all profiles side by side.
pub fn print_profile_help() -> (r: String)
    ensures
        r@ == "scx_descent Profile Parameter Defaults\n"@
            + "======================================\n\n"@ + pie_section() + target_section()
            + autorate_section() + description_section(),
{
    let g = Profile::gaming();
    let p = Profile::production();
    let s = Profile::server();
    let mut out: String = "scx_descent Profile Parameter Defaults\n".to_owned();
    out.append("======================================\n\n");
    out.append(pie_section_text(&g, &p, &s).as_str());
    out.append(target_section_text(&g, &p, &s).as_str());
    out.append(autorate_section_text(&g, &p, &s).as_str());
    out.append(description_section_text().as_str());
    out
}

} // verus!
