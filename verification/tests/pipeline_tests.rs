use adblog::chain::FilterChain;
use adblog::parse::Accumulator;
use adblog::{Level, Log};

const INPUT: &str = "--------- switch to main\n\
[ 05-24 07:58:15.003  1454:  1454 W/System.err ]\n\
first line\n\
second line\n\
[ 05-24 07:58:16.000  1454:  1454 V/System.err ]\n\
too verbose\n\
--------- switch to system\n\
[ 05-24 07:58:17.000   200:   200 E/lowmemorykiller ]\n\
killing things\n";

fn run_pipeline(input: &str, chain: &mut FilterChain) -> Vec<(Log, bool)> {
    let mut acc = Accumulator::new();
    let mut out = Vec::new();
    for line in input.split_inclusive('\n') {
        if let Some(log) = acc.step(line) {
            let accepted = chain.apply(&log);
            out.push((log, accepted));
        }
    }
    if let Some(log) = acc.finish() {
        let accepted = chain.apply(&log);
        out.push((log, accepted));
    }
    out
}

#[test]
fn lines_to_decisions() {
    let mut chain = FilterChain::new(
        Vec::new(),
        vec!["main".to_string()],
        Level::W,
        String::new(),
        String::new(),
        false,
    );
    let results = run_pipeline(INPUT, &mut chain);
    assert_eq!(results.len(), 3);

    assert_eq!(results[0].0.message, "first line\nsecond line");
    assert_eq!(results[0].0.buffer, "main");
    assert!(results[0].1, "warning on the main buffer survives");

    assert_eq!(results[1].0.level, "V");
    assert!(!results[1].1, "verbose record falls below the minimum level");

    assert_eq!(results[2].0.buffer, "system");
    assert!(!results[2].1, "system record is outside the configured buffers");
}

#[test]
fn rerunning_the_pipeline_is_identical() {
    let mk_chain = || {
        FilterChain::new(
            vec!["err".to_string()],
            vec!["main".to_string(), "system".to_string()],
            Level::V,
            String::new(),
            String::new(),
            false,
        )
    };
    let mut c1 = mk_chain();
    let mut c2 = mk_chain();
    c1.seed_pids(&vec!["u 1454 1 0 0 0 0 S System.err".to_string()]);
    c2.seed_pids(&vec!["u 1454 1 0 0 0 0 S System.err".to_string()]);
    let r1: Vec<bool> = run_pipeline(INPUT, &mut c1).iter().map(|p| p.1).collect();
    let r2: Vec<bool> = run_pipeline(INPUT, &mut c2).iter().map(|p| p.1).collect();
    assert_eq!(r1, r2);
    assert_eq!(r1, vec![true, true, false]);
}

#[test]
fn severity_rank_converts_to_u8() {
    assert_eq!(u8::from(Level::V), 1);
    assert_eq!(u8::from(Level::D), 2);
    assert_eq!(u8::from(Level::I), 3);
    assert_eq!(u8::from(Level::W), 4);
    assert_eq!(u8::from(Level::E), 5);
    assert_eq!(u8::from(Level::F), 6);
    assert_eq!(u8::from(Level::S), 7);
}
