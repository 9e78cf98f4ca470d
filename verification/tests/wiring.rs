use ebishell::wiring::{channel_count, wiring_plan, StdinSource, StdoutSink};

#[test]
fn single_stage_inherits_both_streams() {
    let plan = wiring_plan(1);
    assert_eq!(plan.len(), 1);
    assert_eq!(plan[0].stdin, StdinSource::Inherit);
    assert_eq!(plan[0].stdout, StdoutSink::Inherit);
    assert_eq!(channel_count(1), 0);
}

#[test]
fn two_stages_share_one_channel() {
    let plan = wiring_plan(2);
    assert_eq!(plan.len(), 2);
    assert_eq!(channel_count(2), 1);
    assert_eq!(plan[0].stdin, StdinSource::Inherit);
    assert_eq!(plan[0].stdout, StdoutSink::ToChannel(0));
    assert_eq!(plan[1].stdin, StdinSource::FromChannel(0));
    assert_eq!(plan[1].stdout, StdoutSink::Inherit);
}

#[test]
fn three_stages_chain_end_to_end() {
    let plan = wiring_plan(3);
    assert_eq!(plan.len(), 3);
    assert_eq!(channel_count(3), 2);
    assert_eq!(plan[0].stdin, StdinSource::Inherit);
    assert_eq!(plan[0].stdout, StdoutSink::ToChannel(0));
    assert_eq!(plan[1].stdin, StdinSource::FromChannel(0));
    assert_eq!(plan[1].stdout, StdoutSink::ToChannel(1));
    assert_eq!(plan[2].stdin, StdinSource::FromChannel(1));
    assert_eq!(plan[2].stdout, StdoutSink::Inherit);
}

#[test]
fn long_pipeline_not_capped_at_two() {
    let n = 8;
    let plan = wiring_plan(n);
    assert_eq!(plan.len(), n);
    for i in 1..n {
        assert_eq!(plan[i].stdin, StdinSource::FromChannel(i - 1));
    }
    for i in 0..n - 1 {
        assert_eq!(plan[i].stdout, StdoutSink::ToChannel(i));
    }
}
