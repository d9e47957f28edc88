use labcat::bound_types::{Boolean, BoundRepr, BoundType, Categorical, Discrete};
use labcat::bounds::{has_duplicates, BoundReprs, Bounds, Config};
use labcat::bounds_transforms::{BoundTransform, BoundTransformType};
use labcat::labcat::{
    after_termination, check_converged, f_discard, f_init, fallback_budget, AskSource,
    OptimizationSummary, Orchestrator, Phase, RunAction, TermCond,
};
use labcat::lbfgsb::{
    needs_evaluation, task_verdict, with_lower_bound, with_upper_bound, workspace_len,
    ConvergenceTypes, TaskVerdict,
};
use labcat::memory::BaseMemory;
use labcat::tune::{
    NoTuning, SurrogateTuning, TuneBranch, TuneStep, BACKTRACK_N, LABCAT_GPTune,
};
use labcat::utils::{
    fill_col_with_slice, fill_row_with_slice, fill_with_side, get_subcol_with_idx,
    get_submatrix_with_idx, get_subrow_with_idx, Axis, Select, Side,
};

#[test]
fn parse_transform_names() {
    assert_eq!(BoundTransform::parse_transform("linear"), Some(BoundTransform::Linear));
    assert_eq!(BoundTransform::parse_transform("log"), Some(BoundTransform::Log));
    assert_eq!(BoundTransform::parse_transform("bilog"), Some(BoundTransform::BiLog));
    assert_eq!(BoundTransform::parse_transform("logistic"), Some(BoundTransform::Logistic));
    assert_eq!(BoundTransform::parse_transform("logit"), Some(BoundTransform::Logistic));
    assert_eq!(BoundTransform::parse_transform("Linear"), None);
    assert_eq!(BoundTransform::parse_transform(""), None);
}

#[test]
fn transform_name_round_trip() {
    for t in [BoundTransform::Linear, BoundTransform::Log, BoundTransform::Logistic, BoundTransform::BiLog] {
        assert_eq!(BoundTransform::parse_transform(t.to_string()), Some(t));
        assert_eq!(t.new_transform().kind(), t);
    }
    assert_eq!(BoundTransform::Logistic.to_string(), "logistic");
}

#[test]
fn transform_display_names() {
    assert_eq!(BoundTransform::Linear.new_transform().name(), "None");
    assert_eq!(BoundTransform::Log.new_transform().name(), "Log");
    assert_eq!(BoundTransform::Logistic.new_transform().name(), "Logistic");
    assert_eq!(BoundTransform::BiLog.new_transform().name(), "BiLog");
    assert!(matches!(BoundTransform::Log.new_transform(), BoundTransformType::Log(_)));
}

#[test]
fn subcol_include_and_exclude() {
    let v = vec![10, 11, 12, 13, 14];
    assert_eq!(get_subcol_with_idx(&v, Select::Include, &vec![3, 1, 3]), vec![11, 13]);
    assert_eq!(get_subcol_with_idx(&v, Select::Exclude, &vec![3, 1, 3]), vec![10, 12, 14]);
    assert_eq!(get_subrow_with_idx(&v, Select::Exclude, &vec![]), v);
    assert_eq!(get_subrow_with_idx(&v, Select::Include, &vec![]), Vec::<i32>::new());
}

#[test]
fn submatrix_by_column_and_row() {
    // three columns of two rows
    let m = vec![vec![1, 2], vec![3, 4], vec![5, 6]];
    let c = get_submatrix_with_idx(&m, 2, Select::Exclude, Axis::Col, &vec![1]);
    assert_eq!(c, vec![vec![1, 2], vec![5, 6]]);
    let r = get_submatrix_with_idx(&m, 2, Select::Include, Axis::Row, &vec![1]);
    assert_eq!(r, vec![vec![2], vec![4], vec![6]]);
}

fn memory_of(n: usize) -> BaseMemory<f64> {
    let mut m = BaseMemory::new(2);
    for i in 0..n {
        m.append(&vec![i as f64, -(i as f64)], 10.0 * i as f64);
    }
    m
}

#[test]
fn memory_append_and_read() {
    let mut m = memory_of(3);
    assert_eq!(m.dim(), 2);
    assert_eq!(m.n(), 3);
    assert_eq!(m.x_at(2), &vec![2.0, -2.0]);
    assert_eq!(m.y_at(1), 10.0);
    m.append_mult(&vec![vec![7.0, 8.0], vec![9.0, 1.0]], &vec![70.0, 90.0]);
    assert_eq!(m.n(), 5);
    assert_eq!(m.x_at(4), &vec![9.0, 1.0]);
    assert_eq!(m.y_all(), &vec![0.0, 10.0, 20.0, 70.0, 90.0]);
}

#[test]
fn memory_discard_compacts_in_order() {
    let mut m = memory_of(5);
    m.discard_mult(&vec![3, 0, 3]);
    assert_eq!(m.y_all(), &vec![10.0, 20.0, 40.0]);
    assert_eq!(m.x_at(2), &vec![4.0, -4.0]);
    m.discard(1);
    assert_eq!(m.y_all(), &vec![10.0, 40.0]);
    m.retain_only(1);
    assert_eq!(m.y_all(), &vec![40.0]);
    m.discard_all();
    assert_eq!(m.n(), 0);
    assert_eq!(m.dim(), 2);
}

#[test]
fn memory_forget_respects_both_limits() {
    let mut m = memory_of(6);
    let outside = vec![true, false, true, true, false, true];
    // at most two may go
    let r = m.forget(&outside, 2, 0);
    assert_eq!(r, 2);
    assert_eq!(m.y_all(), &vec![10.0, 30.0, 40.0, 50.0]);

    let mut m = memory_of(6);
    // four must stay, so only two may go even though the cap is larger
    let r = m.forget(&outside, 10, 4);
    assert_eq!(r, 2);
    assert_eq!(m.n(), 4);

    let mut m = memory_of(3);
    let r = m.forget(&vec![false, false, false], 10, 0);
    assert_eq!(r, 0);
    assert_eq!(m.n(), 3);
}

#[test]
fn tuner_schedule() {
    assert_eq!(LABCAT_GPTune::<f64>::first_step(true), TuneStep::Trial(TuneBranch::Newton, 0));
    assert_eq!(LABCAT_GPTune::<f64>::first_step(false), TuneStep::Trial(TuneBranch::Gradient, 0));
    assert_eq!(
        LABCAT_GPTune::<f64>::next_step(TuneBranch::Newton, 2, true),
        TuneStep::Accept(TuneBranch::Newton, 2)
    );
    assert_eq!(
        LABCAT_GPTune::<f64>::next_step(TuneBranch::Newton, 4, false),
        TuneStep::Trial(TuneBranch::Gradient, 0)
    );
    assert_eq!(LABCAT_GPTune::<f64>::next_step(TuneBranch::Gradient, 4, false), TuneStep::Revert);
    let d: Vec<u64> = (0..BACKTRACK_N).map(|k| LABCAT_GPTune::<f64>::step_divisor(TuneBranch::Newton, k)).collect();
    assert_eq!(d, vec![1, 2, 4, 8, 16]);
    let d: Vec<u64> = (0..BACKTRACK_N).map(|k| LABCAT_GPTune::<f64>::step_divisor(TuneBranch::Gradient, k)).collect();
    assert_eq!(d, vec![1, 10, 100, 1000, 10000]);
}

#[test]
fn tuner_reverts_when_nothing_improves() {
    let mut step = LABCAT_GPTune::<f64>::first_step(true);
    let mut trials = 0;
    while let TuneStep::Trial(b, a) = step {
        trials += 1;
        step = LABCAT_GPTune::<f64>::next_step(b, a, false);
    }
    assert_eq!(step, TuneStep::Revert);
    assert_eq!(trials, 10);
}

#[test]
fn tuner_prior_sigma_and_no_tuning() {
    let t = LABCAT_GPTune::new(0.15f64);
    assert_eq!(*t.prior_sigma(), 0.15);
    let mut s = 3u8;
    assert_eq!(NoTuning {}.tune(&mut s), Ok(()));
    assert_eq!(s, 3);
}

#[test]
fn minimizer_task_codes() {
    assert!(needs_evaluation(10) && needs_evaluation(15));
    assert!(!needs_evaluation(9) && !needs_evaluation(16));
    assert_eq!(task_verdict(2, 100, 5), TaskVerdict::Continue);
    assert_eq!(task_verdict(21, 5, 5), TaskVerdict::Stop(Some(ConvergenceTypes::MaxItersReached)));
    assert_eq!(task_verdict(21, 4, 5), TaskVerdict::Stop(Some(ConvergenceTypes::PgtolReached)));
    assert_eq!(task_verdict(22, 0, 0), TaskVerdict::Stop(Some(ConvergenceTypes::TermCondReached)));
    assert_eq!(task_verdict(3, 0, 0), TaskVerdict::Stop(Some(ConvergenceTypes::LinesearchExhausted)));
    assert_eq!(task_verdict(200, 0, 0), TaskVerdict::Stop(None));
    assert_eq!(task_verdict(240, 0, 0), TaskVerdict::Stop(None));
    assert_eq!(task_verdict(241, 0, 0), TaskVerdict::Continue);
    assert_eq!(task_verdict(12, 0, 0), TaskVerdict::Continue);
}

#[test]
fn minimizer_bound_codes() {
    assert_eq!(with_lower_bound(0), 1);
    assert_eq!(with_lower_bound(3), 2);
    assert_eq!(with_lower_bound(2), 2);
    assert_eq!(with_upper_bound(0), 3);
    assert_eq!(with_upper_bound(1), 2);
    assert_eq!(with_upper_bound(3), 3);
    assert_eq!(with_upper_bound(with_lower_bound(0)), 2);
    assert_eq!(workspace_len(2, 5), 345);
}

#[test]
fn design_and_discard_sizes() {
    assert_eq!(f_init(2), 5);
    assert_eq!(f_discard(2), 14);
    assert_eq!(fallback_budget(3), 300);
}

#[test]
fn termination_priority() {
    assert_eq!(check_converged(true, true, true, 10, Some(1), true), Some(TermCond::MachineEpsilonReached));
    assert_eq!(check_converged(true, false, true, 10, Some(1), true), Some(TermCond::TargetTolReached));
    assert_eq!(check_converged(false, false, true, 10, Some(1), true), Some(TermCond::TargetValReached));
    assert_eq!(check_converged(false, false, false, 10, Some(10), true), Some(TermCond::MaxItersReached));
    assert_eq!(check_converged(false, false, false, 9, Some(10), true), Some(TermCond::MaxTimeReached));
    assert_eq!(check_converged(false, false, false, 9, None, false), None);
}

#[test]
fn termination_actions_and_messages() {
    assert_eq!(after_termination(TermCond::TargetValReached, true), RunAction::Restart);
    assert_eq!(after_termination(TermCond::MaxItersReached, true), RunAction::Finish);
    assert_eq!(after_termination(TermCond::MaxTimeReached, true), RunAction::Finish);
    assert_eq!(after_termination(TermCond::TargetValReached, false), RunAction::Finish);
    let s = OptimizationSummary::new(TermCond::MaxItersReached, 25, vec![1.0f64, 2.0], -3.0);
    assert_eq!(s.reason(), "Maximum sampling iterations reached!");
    assert_eq!(s.n_samples(), 25);
    assert_eq!(s.min_x(), &vec![1.0, 2.0]);
    assert_eq!(s.min_y(), -3.0);
    assert_eq!(s.term_cond(), TermCond::MaxItersReached);
    let s = OptimizationSummary::new(TermCond::DidNotConverge, 0, vec![0.0f64], 0.0);
    assert_eq!(s.reason(), "Did not converge!");
}

#[test]
fn orchestrator_phases() {
    let mut o: Orchestrator<f64> = Orchestrator::new(2, Some(6), false);
    assert_eq!(o.n_design(), 5);
    for i in 0..4 {
        assert_eq!(o.phase(), Phase::Init);
        assert_eq!(o.ask_source(), AskSource::Design(i));
        assert!(!o.tell(&vec![i as f64, 0.0], i as f64));
    }
    assert!(o.tell(&vec![4.0, 0.0], 4.0));
    assert_eq!(o.phase(), Phase::Nominal);
    assert_eq!(o.ask_source(), AskSource::Acquisition);
    assert_eq!(o.check(false, false, false, false), None);
    assert!(o.tell(&vec![5.0, 0.0], 5.0));
    assert_eq!(o.n_samples(), 6);
    assert_eq!(o.check(false, false, false, false), Some(TermCond::MaxItersReached));
}

#[test]
fn orchestrator_forget_keeps_design_size() {
    let mut o: Orchestrator<f64> = Orchestrator::new(1, None, true);
    for i in 0..6 {
        o.tell(&vec![i as f64], i as f64);
    }
    // design size is 3, so at most three of the six may go; the cap is 7
    let r = o.forget(&vec![true; 6]);
    assert_eq!(r, 3);
    assert_eq!(o.n(), 3);
    assert_eq!(o.memory().y_all(), &vec![3.0, 4.0, 5.0]);
}

#[test]
fn orchestrator_restart_and_replace() {
    let mut o: Orchestrator<f64> = Orchestrator::new(2, None, true);
    for i in 0..5 {
        o.tell(&vec![i as f64, 1.0], i as f64);
    }
    o.set_observations(&vec![vec![0.0, 0.0]; 5], &vec![1.0; 5]);
    assert_eq!(o.memory().x_at(3), &vec![0.0, 0.0]);
    o.restart(2);
    assert_eq!(o.n(), 1);
    assert_eq!(o.n_design(), 4);
    assert_eq!(o.phase(), Phase::Init);
    assert_eq!(o.ask_source(), AskSource::Design(1));
    assert_eq!(o.on_termination(TermCond::TargetTolReached), RunAction::Restart);
}

#[test]
fn bounds_builder() {
    let b: Bounds<f64, Config> = Bounds::new();
    let b = b
        .add_continuous("x", 5.0, -5.0)
        .add_discrete("n", 10, 1)
        .add_discrete_with_transform("m", 100, 1, BoundTransform::Log)
        .add_categorical("c", vec!["red", "green"])
        .add_boolean("flag");
    assert!(b.has_label("n"));
    assert!(!b.has_label("z"));
    let r = b.build();
    assert_eq!(r.dim(), 5);
    assert_eq!(r.position_of("c"), Some(3));
    assert_eq!(r.position_of("q"), None);
    assert_eq!(r.bound_at(0).label(), "x");
    match r.bound_at(2) {
        BoundType::Discrete(d) => {
            assert_eq!((d.upper(), d.lower()), (100, 1));
            assert_eq!(d.transform().kind(), BoundTransform::Log);
        }
        _ => panic!("expected a discrete bound"),
    }
}

#[test]
fn duplicate_names() {
    assert!(has_duplicates(&vec!["a", "b", "a"]));
    assert!(!has_duplicates(&vec!["a", "b", "c"]));
    assert!(!has_duplicates(&vec![]));
}

#[test]
fn categorical_encoding() {
    let c = Categorical::new("colour", vec!["red", "green", "blue"]);
    assert_eq!(c.n_categories(), 3);
    assert!(c.inside(0, 1));
    assert!(c.inside(2, 3));
    assert!(c.inside(3, 3));
    assert!(!c.inside(3, 4));
    assert!(!c.inside(-1, 0));
    assert_eq!(c.repr(1, 2), Some("green".to_string()));
    assert_eq!(c.repr(3, 3), Some("blue".to_string()));
    assert_eq!(c.repr(4, 5), None);
    assert_eq!(c.category_index("blue"), Some(2));
    assert_eq!(c.category_index("black"), None);
}

#[test]
fn boolean_encoding() {
    let b = Boolean::new("flag");
    assert_eq!(b.label(), "flag");
    assert!(b.inside(0, 1));
    assert!(b.inside(1, 2));
    assert!(b.inside(2, 2));
    assert!(!b.inside(2, 3));
    assert_eq!(Boolean::encoding_start(true), 0);
    assert_eq!(Boolean::encoding_start(false), 1);
}

#[test]
fn discrete_bound_parts() {
    let d = Discrete::new("k", 4, -4);
    assert_eq!(d.label(), "k");
    assert_eq!(d.transform().kind(), BoundTransform::Linear);
    let d = Discrete::new_with_transform("k", 4, 1, BoundTransform::BiLog);
    assert_eq!(d.transform().kind(), BoundTransform::BiLog);
}

#[test]
fn reprs_lookup_by_label() {
    let r: BoundReprs<f64> = BoundReprs::new(vec![
        BoundRepr::Continuous("x".to_string(), 1.5),
        BoundRepr::Boolean("flag".to_string(), true),
        BoundRepr::Categorical("c".to_string(), "red".to_string()),
    ]);
    assert_eq!(r.len(), 3);
    assert_eq!(r.find("flag"), Some(1));
    assert_eq!(r.find("c"), Some(2));
    assert_eq!(r.find("y"), None);
    assert_eq!(r.at(0).label(), "x");
}

#[test]
fn mirror_lower_and_upper_triangles() {
    // columns of [[1, 2, 3], [4, 5, 6], [7, 8, 9]] (row-major)
    let m = vec![vec![1, 4, 7], vec![2, 5, 8], vec![3, 6, 9]];
    let mut lo = m.clone();
    fill_with_side(&mut lo, Side::Lower);
    assert_eq!(lo, vec![vec![1, 4, 7], vec![4, 5, 8], vec![7, 8, 9]]);
    let mut up = m.clone();
    fill_with_side(&mut up, Side::Upper);
    assert_eq!(up, vec![vec![1, 2, 3], vec![2, 5, 6], vec![3, 6, 9]]);
    let mut empty: Vec<Vec<i32>> = vec![];
    fill_with_side(&mut empty, Side::Lower);
    assert!(empty.is_empty());
}

#[test]
fn fill_rows_and_columns() {
    let mut m = vec![vec![0, 0], vec![0, 0], vec![0, 0]];
    fill_col_with_slice(&mut m, 2, 1, &vec![5, 6]);
    assert_eq!(m, vec![vec![0, 0], vec![5, 6], vec![0, 0]]);
    fill_row_with_slice(&mut m, 2, 0, &vec![1, 2, 3]);
    assert_eq!(m, vec![vec![1, 0], vec![2, 6], vec![3, 0]]);
}

#[test]
fn match_values_to_bounds() {
    let b: Bounds<f64, Config> = Bounds::new();
    let r = b.add_boolean("flag").add_continuous("x", 1.0, 0.0).build();
    let vals: BoundReprs<f64> = BoundReprs::new(vec![
        BoundRepr::Continuous("x".to_string(), 0.5),
        BoundRepr::Boolean("flag".to_string(), false),
        BoundRepr::Continuous("x".to_string(), 0.7),
    ]);
    assert_eq!(r.match_reprs(&vals), Some(vec![1, 0]));
    let missing: BoundReprs<f64> = BoundReprs::new(vec![BoundRepr::Boolean("flag".to_string(), true)]);
    assert_eq!(r.match_reprs(&missing), None);
}
