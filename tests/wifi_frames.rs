use greenhouse_link::esp01s::{
    Action, CommandExecuteFrame, DataReportFrame, ExecutionReceiptFrame, FrameType, FrameTypeError, Target,
};

#[test]
fn report_frame_fields() {
    let f = DataReportFrame::new(25, 60, 42, 1200, true, false, true, false);
    assert_eq!(f.temp, 25);
    assert_eq!(f.humi, 60);
    assert_eq!(f.soil, 42);
    assert_eq!(f.lux, 1200);
    assert!(f.water && !f.light && f.fan && !f.buzzer);
}

#[test]
fn analysis_picks_the_matching_kind() {
    let report = DataReportFrame::new(1, 2, 3, 4, false, false, false, false);
    let cmd = CommandExecuteFrame { target: Target::Fan, action: Action::Duration(5) };
    let receipt = ExecutionReceiptFrame { target: Target::Water, action: Action::On, result: true };
    assert_eq!(FrameType::DataReport(report).analysis_report(), Ok(report));
    assert_eq!(FrameType::DataReport(report).analysis_command(), Err(FrameTypeError::NotCommand));
    assert_eq!(FrameType::CommandExecute(cmd).analysis_command(), Ok(cmd));
    assert_eq!(FrameType::CommandExecute(cmd).analysis_receipt(), Err(FrameTypeError::NotReceipt));
    assert_eq!(FrameType::ExecutionReceipt(receipt).analysis_receipt(), Ok(receipt));
    assert_eq!(FrameType::ExecutionReceipt(receipt).analysis_report(), Err(FrameTypeError::NotReport));
}
