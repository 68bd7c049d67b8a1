use vpn_ip_tracker::service::{render_unit_line, service_exit_code, UNKNOWN_EXIT_CODE};

#[test]
fn unit_line_substitutes_directory() {
    assert_eq!(
        render_unit_line("ExecStart=@DIR@/vpn-ip-tracker", "/opt/tracker"),
        "ExecStart=/opt/tracker/vpn-ip-tracker"
    );
    assert_eq!(render_unit_line("WorkingDirectory=@DIR@", "/srv"), "WorkingDirectory=/srv");
    assert_eq!(render_unit_line("[Unit]", "/srv"), "[Unit]");
    assert_eq!(render_unit_line("", "/srv"), "");
    assert_eq!(render_unit_line("a@b", "/d"), "a/db");
    assert_eq!(render_unit_line("x@1@2@y", "/d"), "x/dy");
}

#[test]
fn exit_code_of_ended_tracker() {
    assert_eq!(service_exit_code(Some(0)), 0);
    assert_eq!(service_exit_code(Some(1)), 1);
    assert_eq!(service_exit_code(Some(-1)), u32::MAX);
    assert_eq!(service_exit_code(None), UNKNOWN_EXIT_CODE);
    assert_eq!(UNKNOWN_EXIT_CODE, 3);
}
