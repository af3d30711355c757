//! Traced functions written out by hand in the shape the generator gives
//! them, writing their trace into a list of lines.
use procon_lg::{limit_message, render_entry, render_exit, DepthGuard, TraceArg};

fn countdown(count: u32, guard: DepthGuard, out: &mut Vec<String>) {
    let args = vec![TraceArg::labeled("count", format!("{:?}", count))];
    out.push(render_entry(guard.current_depth(), "countdown", &args));
    if count > 0 {
        countdown(count - 1, guard.nested(), out);
    }
    out.push(render_exit(guard.current_depth(), None));
}

fn generic_gcd(a: u64, b: u64, guard: DepthGuard, out: &mut Vec<String>) -> u64 {
    let args = vec![
        TraceArg::labeled("a", format!("{:?}", a)),
        TraceArg::labeled("b", format!("{:?}", b)),
    ];
    out.push(render_entry(guard.current_depth(), "generic_gcd", &args));
    let result = if b == 0 {
        a
    } else {
        generic_gcd(b, a % b, guard.nested(), out)
    };
    out.push(render_exit(guard.current_depth(), Some(format!("{:?}", result))));
    result
}

fn probe(n: u32, guard: DepthGuard, out: &mut Vec<String>) -> Result<(), String> {
    if guard.exceeds(5) {
        return Err(limit_message("probe", 5));
    }
    let args = vec![TraceArg::labeled("n", format!("{:?}", n))];
    out.push(render_entry(guard.current_depth(), "probe", &args));
    if n > 0 {
        probe(n - 1, guard.nested(), out)?;
    }
    out.push(render_exit(guard.current_depth(), None));
    Ok(())
}

#[test]
fn countdown_from_three() {
    let mut out = Vec::new();
    countdown(3, DepthGuard::new(), &mut out);
    assert_eq!(
        out,
        vec![
            "├ countdown(count:3)",
            "│ ├ countdown(count:2)",
            "│ │ ├ countdown(count:1)",
            "│ │ │ ├ countdown(count:0)",
            "│ │ │ └",
            "│ │ └",
            "│ └",
            "└",
        ]
    );
}

#[test]
fn gcd_of_48_and_18() {
    let mut out = Vec::new();
    let g = generic_gcd(48, 18, DepthGuard::new(), &mut out);
    assert_eq!(g, 6);
    assert_eq!(
        out,
        vec![
            "├ generic_gcd(a:48, b:18)",
            "│ ├ generic_gcd(a:18, b:12)",
            "│ │ ├ generic_gcd(a:12, b:6)",
            "│ │ │ ├ generic_gcd(a:6, b:0)",
            "│ │ │ └ return: 6",
            "│ │ └ return: 6",
            "│ └ return: 6",
            "└ return: 6",
        ]
    );
}

#[test]
fn limit_of_five_allows_depth_four() {
    let mut out = Vec::new();
    assert!(probe(4, DepthGuard::new(), &mut out).is_ok());
    assert_eq!(out.len(), 10);
    assert_eq!(out.iter().filter(|l| l.contains("├ probe(")).count(), 5);
    assert_eq!(out.iter().filter(|l| l.ends_with('└')).count(), 5);
    assert_eq!(out[4], "│ │ │ │ ├ probe(n:0)");
}

#[test]
fn limit_of_five_aborts_at_depth_five() {
    let mut out = Vec::new();
    let r = probe(5, DepthGuard::new(), &mut out);
    assert_eq!(
        r,
        Err("Recursion limit exceeded: probe reached maximum depth of 5".to_string())
    );
    assert_eq!(out.len(), 5);
    assert!(out.iter().all(|l| l.contains("├ probe(")));
}

#[test]
fn limit_check_at_the_boundary() {
    let mut g = DepthGuard::new();
    for _ in 0..4 {
        g = g.nested();
    }
    assert!(!g.exceeds(5));
    assert!(g.nested().exceeds(5));
    assert!(DepthGuard::new().exceeds(0));
}
