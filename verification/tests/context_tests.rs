use bastionai_learning::module::Module;
use bastionai_learning::params::{LossType, Parameters, StepPlan};
use bastionai_learning::privacy::{DpSGDContext, GuardContext, GuardedTensor};
use bastionai_learning::rational::Ratio;
use bastionai_learning::stream::SizedObjectsBytes;
use bastionai_learning::tensor::TensorData;
use bastionai_learning::Error;

fn guarded(shape: Vec<u32>, data: Vec<u8>, delta: Ratio, nb_samples: u64) -> GuardedTensor {
    GuardedTensor {
        data: TensorData { shape, data },
        guard: GuardContext { delta, nb_samples },
    }
}

fn empty_module() -> Module {
    // An empty archive object decodes to a store with no tensors.
    let mut stream = SizedObjectsBytes::new();
    stream.append_back(Vec::new());
    Module::load_from_bytes(stream).expect("empty archive must load")
}

#[test]
fn forward_publishes_context_from_first_input() {
    let m = empty_module();
    let f = m.forward_fn();
    let mut ctx: Option<DpSGDContext> = None;
    let input = guarded(vec![8, 3], vec![0; 24], Ratio { num: 1, den: 1 }, 800);
    let second = guarded(vec![4], vec![0; 4], Ratio { num: 7, den: 2 }, 50);
    let pass = f
        .forward(&mut ctx, vec![input, second])
        .expect("forward over valid inputs succeeds");
    let c = ctx.expect("context must be published");
    assert_eq!(c.delta, Ratio { num: 1, den: 1 });
    assert_eq!(c.batch_sampling_rate, Ratio { num: 8, den: 800 });
    assert_eq!(
        c.empty_guard.context,
        GuardContext { delta: Ratio { num: 1, den: 1 }, nb_samples: 800 }
    );
    // The composed output guard comes from the first input too.
    assert_eq!(
        pass.guard,
        GuardContext { delta: Ratio { num: 1, den: 1 }, nb_samples: 800 }
    );
    // The pass hands all guarded inputs through unmodified.
    assert_eq!(pass.inputs.len(), 2);
    assert_eq!(pass.inputs[0].data.shape, vec![8, 3]);
    assert_eq!(pass.inputs[1].guard.nb_samples, 50);
}

#[test]
fn batch_sampling_rate_is_exactly_one_hundredth() {
    // delta = 1.0, batch size 8, population 800: the rate is 0.01 exactly.
    let m = empty_module();
    let f = m.forward_fn();
    let mut ctx: Option<DpSGDContext> = None;
    let input = guarded(vec![8], vec![0; 8], Ratio { num: 1, den: 1 }, 800);
    f.forward(&mut ctx, vec![input]).expect("forward succeeds");
    let c = ctx.expect("context must be published");
    assert!(c.batch_sampling_rate.same_value(&Ratio { num: 1, den: 100 }));
    assert!(!c.batch_sampling_rate.same_value(&Ratio { num: 1, den: 99 }));
}

#[test]
fn empty_forward_keeps_existing_context() {
    let m = empty_module();
    let f = m.forward_fn();
    let mut ctx: Option<DpSGDContext> = None;
    let input = guarded(vec![2], vec![0; 2], Ratio { num: 3, den: 4 }, 10);
    f.forward(&mut ctx, vec![input]).expect("forward succeeds");
    let before = ctx.expect("context set");
    let pass = f.forward(&mut ctx, Vec::new()).expect("empty forward succeeds");
    assert_eq!(ctx, Some(before));
    assert_eq!(pass.inputs.len(), 0);
}

#[test]
fn empty_forward_leaves_context_unset() {
    let m = empty_module();
    let f = m.forward_fn();
    let mut ctx: Option<DpSGDContext> = None;
    f.forward(&mut ctx, Vec::new()).expect("empty forward succeeds");
    assert_eq!(ctx, None);
}

#[test]
fn forward_on_rank_zero_tensor_is_graph_error() {
    let m = empty_module();
    let f = m.forward_fn();
    let mut ctx: Option<DpSGDContext> = None;
    let input = guarded(Vec::new(), vec![1, 2, 3], Ratio { num: 1, den: 1 }, 10);
    let r = f.forward(&mut ctx, vec![input]);
    assert_eq!(r.err(), Some(Error::GraphError));
    assert_eq!(ctx, None);
}

#[test]
fn forward_pass_complete_wraps_output_with_composed_guard() {
    let m = empty_module();
    let f = m.forward_fn();
    let mut ctx: Option<DpSGDContext> = None;
    let input = guarded(vec![2], vec![9, 9], Ratio { num: 1, den: 2 }, 4);
    let pass = f.forward(&mut ctx, vec![input]).expect("forward succeeds");
    let out = pass.complete(TensorData { shape: vec![1], data: vec![42] });
    assert_eq!(out.data, TensorData { shape: vec![1], data: vec![42] });
    assert_eq!(out.guard, GuardContext { delta: Ratio { num: 1, den: 2 }, nb_samples: 4 });
}

#[test]
fn private_step_before_any_forward_is_logic_error() {
    let mut m = empty_module();
    let (_f, p) = m
        .private_parameters(
            Ratio { num: 1, den: 1 },
            Ratio { num: 2, den: 1 },
            LossType::Mean,
        )
        .expect("positive parameters are accepted");
    let r = p.step_context(m.dp_context());
    assert_eq!(r, Err(Error::LogicError));
}

#[test]
fn private_step_after_forward_reads_the_snapshot() {
    let mut m = empty_module();
    let (f, p) = m
        .private_parameters(
            Ratio { num: 3, den: 2 },
            Ratio { num: 1, den: 1 },
            LossType::Sum,
        )
        .expect("positive parameters are accepted");
    let mut_input = guarded(vec![5], vec![0; 5], Ratio { num: 1, den: 4 }, 20);
    f.forward(m.dp_context_mut(), vec![mut_input]).expect("forward succeeds");
    let plan = p.step_context(m.dp_context()).expect("step proceeds once context is set");
    match plan {
        StepPlan::Private { eps, max_grad_norm, loss_type, context } => {
            assert_eq!(eps, Ratio { num: 3, den: 2 });
            assert_eq!(max_grad_norm, Ratio { num: 1, den: 1 });
            assert_eq!(loss_type, LossType::Sum);
            assert_eq!(context.delta, Ratio { num: 1, den: 4 });
            assert_eq!(context.batch_sampling_rate, Ratio { num: 5, den: 20 });
        }
        StepPlan::Standard => panic!("expected a private step plan"),
    }
}

#[test]
fn standard_step_never_consults_the_context() {
    let mut m = empty_module();
    let (_f, p) = m.parameters();
    assert_eq!(p, Parameters::Standard);
    let r = p.step_context(m.dp_context());
    assert_eq!(r, Ok(StepPlan::Standard));
}

#[test]
fn concurrent_reads_see_the_same_snapshot() {
    // Two parameter-update reads with no interleaved forward write observe
    // one and the same published snapshot.
    let mut m = empty_module();
    let (f, p) = m
        .private_parameters(
            Ratio { num: 1, den: 1 },
            Ratio { num: 1, den: 1 },
            LossType::Mean,
        )
        .expect("positive parameters are accepted");
    let input = guarded(vec![2], vec![0; 2], Ratio { num: 1, den: 8 }, 16);
    f.forward(m.dp_context_mut(), vec![input]).expect("forward succeeds");
    let first = p.step_context(m.dp_context());
    let second = p.step_context(m.dp_context());
    assert_eq!(first, second);
}

#[test]
fn non_positive_privacy_parameters_are_rejected() {
    let mut m = empty_module();
    let r = m.private_parameters(
        Ratio { num: 0, den: 1 },
        Ratio { num: 1, den: 1 },
        LossType::Sum,
    );
    assert_eq!(r.err(), Some(Error::InvalidArgument));
    let r = m.private_parameters(
        Ratio { num: 1, den: 1 },
        Ratio { num: 0, den: 1 },
        LossType::Sum,
    );
    assert_eq!(r.err(), Some(Error::InvalidArgument));
}

#[test]
fn ratio_equality_is_exact_cross_multiplication() {
    assert!(Ratio { num: 8, den: 800 }.same_value(&Ratio { num: 1, den: 100 }));
    assert!(Ratio { num: 2, den: 6 }.same_value(&Ratio { num: 1, den: 3 }));
    assert!(!Ratio { num: 1, den: 3 }.same_value(&Ratio { num: 1, den: 2 }));
    assert_eq!(Ratio::new(5, 0), Err(Error::InvalidArgument));
    assert_eq!(Ratio::new(5, 2), Ok(Ratio { num: 5, den: 2 }));
    assert_eq!(Ratio::from_integer(3), Ratio { num: 3, den: 1 });
    assert!(Ratio { num: 1, den: 7 }.positive());
    assert!(!Ratio { num: 0, den: 7 }.positive());
}
