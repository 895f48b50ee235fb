use eve_fit_os::fit::{BuffAggregateMode, BuffOperation};
use eve_fit_os::protobuf::{aggregate_mode_from_code, buff_operation_from_code};

#[test]
fn aggregate_modes() {
    assert_eq!(aggregate_mode_from_code(0), BuffAggregateMode::Maximum);
    assert_eq!(aggregate_mode_from_code(1), BuffAggregateMode::Minimum);
}

#[test]
fn buff_operations() {
    let expected = [
        BuffOperation::PreAssign,
        BuffOperation::PreMul,
        BuffOperation::PreDiv,
        BuffOperation::ModAdd,
        BuffOperation::ModSub,
        BuffOperation::PostMul,
        BuffOperation::PostDiv,
        BuffOperation::PostPercent,
        BuffOperation::PostAssign,
    ];
    for (code, operation) in expected.into_iter().enumerate() {
        assert_eq!(buff_operation_from_code(code as i32), operation);
    }
}
