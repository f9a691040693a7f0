use neuro_bridge::{
    read_frame, render, request, serve, BridgeCommand, BridgeResponse, ByteStream, Channel,
    Rendering,
};

fn exchange(command: BridgeCommand, report: Result<(String, String), String>) -> Rendering {
    let to_server = ByteStream::new(request(command));
    let (written, _) = serve(to_server, &report);
    let mut to_client = ByteStream::new(written);
    let payload = read_frame(&mut to_client).unwrap();
    render(&BridgeResponse::decode(&payload).unwrap())
}

#[test]
fn request_is_the_framed_command() {
    assert_eq!(request(BridgeCommand::Ping), vec![0, 0, 0, 4, 0, 0, 0, 0]);
    assert_eq!(request(BridgeCommand::GetGpuInfo), vec![0, 0, 0, 4, 1, 0, 0, 0]);
}

#[test]
fn pong_is_shown_as_alive() {
    let shown = render(&BridgeResponse::Pong);
    assert_eq!(shown.channel, Channel::Output);
    assert_eq!(shown.lines, vec!["Pong! Server is alive.".to_string()]);
}

#[test]
fn gpu_info_is_shown_with_both_fields() {
    let shown = render(&BridgeResponse::GpuInfo {
        device_name: "Mock GPU".to_string(),
        driver_version: "1.2.3".to_string(),
    });
    assert_eq!(shown.channel, Channel::Output);
    assert_eq!(
        shown.lines,
        vec![
            "GPU Detected via Bridge!".to_string(),
            "   Device: Mock GPU".to_string(),
            "   Driver: 1.2.3".to_string(),
        ],
    );
}

#[test]
fn error_is_shown_on_the_error_stream() {
    let shown = render(&BridgeResponse::Error("no GPU driver".to_string()));
    assert_eq!(shown.channel, Channel::Error);
    assert_eq!(shown.lines, vec!["Server Error: no GPU driver".to_string()]);
}

#[test]
fn ack_is_shown_by_name() {
    let shown = render(&BridgeResponse::Ack);
    assert_eq!(shown.channel, Channel::Output);
    assert_eq!(shown.lines, vec!["Received: Ack".to_string()]);
}

#[test]
fn end_to_end_ping() {
    let shown = exchange(BridgeCommand::Ping, Err("unused".to_string()));
    assert_eq!(shown.channel, Channel::Output);
    assert_eq!(shown.lines, vec!["Pong! Server is alive.".to_string()]);
}

#[test]
fn end_to_end_gpu_info() {
    let shown = exchange(
        BridgeCommand::GetGpuInfo,
        Ok(("Mock GPU".to_string(), "1.2.3".to_string())),
    );
    assert_eq!(shown.channel, Channel::Output);
    assert_eq!(shown.lines[1], "   Device: Mock GPU");
    assert_eq!(shown.lines[2], "   Driver: 1.2.3");
}

#[test]
fn end_to_end_device_failure() {
    let shown = exchange(BridgeCommand::GetGpuInfo, Err("no GPU driver".to_string()));
    assert_eq!(shown.channel, Channel::Error);
    assert_eq!(shown.lines, vec!["Server Error: no GPU driver".to_string()]);
}
