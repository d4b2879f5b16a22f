use sra_core::logger::LogLevel;
use sra_core::process::{
    apply_start, finish_stop, flush_task_continues, get_sra_status, graceful_stop_command,
    handle_stream_end, input_echo, plan_launch, plan_start, plan_stop, pump_error_line,
    pump_output_line, scan_status_markers, task_run_command, task_stop_command,
    validate_send_input, LineAssembler,
};
use sra_core::sra_parser::SraLogParser;
use sra_core::types::{SraError, SraProcess, SraStatus};

fn running() -> Option<SraProcess> {
    Some(SraProcess { has_child: true, status: SraStatus::Running })
}

#[test]
fn start_is_idempotent_while_alive() {
    let mut state = running();
    // Two start requests in a row, the worker alive both times: neither
    // spawns, the state never changes.
    assert!(!plan_start(&state, true));
    assert!(!plan_start(&state, true));
    assert_eq!(state, running());
}

#[test]
fn start_spawns_after_exit_and_records_outcome() {
    let state = Some(SraProcess { has_child: true, status: SraStatus::Running });
    // The child exists but the liveness check says it exited.
    assert!(plan_start(&state, false));
    let mut state = state;
    apply_start(&mut state, true);
    assert_eq!(state, running());
    apply_start(&mut state, false);
    assert_eq!(state, Some(SraProcess { has_child: false, status: SraStatus::Error }));
    // A failed start is recoverable: the next start spawns again.
    assert!(plan_start(&state, false));
    apply_start(&mut state, true);
    assert_eq!(state, running());
}

#[test]
fn stop_forces_not_running() {
    // Whatever the worker does with the graceful request, the state after
    // stop is NotRunning with the handle released.
    let mut state = running();
    assert!(plan_stop(&state));
    finish_stop(&mut state);
    assert_eq!(state, Some(SraProcess { has_child: false, status: SraStatus::NotRunning }));

    let mut busy = Some(SraProcess { has_child: true, status: SraStatus::TaskRunning });
    finish_stop(&mut busy);
    assert_eq!(busy, Some(SraProcess { has_child: false, status: SraStatus::NotRunning }));
}

#[test]
fn stop_without_child_is_a_no_op() {
    let mut state = Some(SraProcess { has_child: false, status: SraStatus::Error });
    assert!(!plan_stop(&state));
    finish_stop(&mut state);
    assert_eq!(state, Some(SraProcess { has_child: false, status: SraStatus::Error }));
    let mut empty: Option<SraProcess> = None;
    finish_stop(&mut empty);
    assert_eq!(empty, None);
}

#[test]
fn stream_end_warns_only_on_unexpected_exit() {
    let mut state = running();
    assert!(handle_stream_end(&mut state));
    assert_eq!(state, Some(SraProcess { has_child: false, status: SraStatus::NotRunning }));
    // A second end (or one after a deliberate stop) warns no more.
    assert!(!handle_stream_end(&mut state));
}

#[test]
fn flush_task_halts_without_child() {
    assert!(flush_task_continues(&running()));
    assert!(!flush_task_continues(&Some(SraProcess {
        has_child: false,
        status: SraStatus::NotRunning,
    })));
    assert!(!flush_task_continues(&None));
}

#[test]
fn status_labels() {
    assert_eq!(get_sra_status(&None), "not-running");
    assert_eq!(get_sra_status(&running()), "running");
    assert_eq!(
        get_sra_status(&Some(SraProcess { has_child: true, status: SraStatus::TaskRunning })),
        "task-running"
    );
    assert_eq!(
        get_sra_status(&Some(SraProcess { has_child: false, status: SraStatus::Error })),
        "error"
    );
}

#[test]
fn empty_input_is_rejected_before_anything_is_written() {
    let state = running();
    assert_eq!(validate_send_input(&state, true, ""), Err(SraError::InvalidArgument));
    assert_eq!(validate_send_input(&state, true, "   \t"), Err(SraError::InvalidArgument));
}

#[test]
fn input_needs_a_live_worker() {
    assert_eq!(validate_send_input(&None, true, "task run"), Err(SraError::NotRunning));
    let dead = Some(SraProcess { has_child: false, status: SraStatus::NotRunning });
    assert_eq!(validate_send_input(&dead, true, "task run"), Err(SraError::NotRunning));
    let state = running();
    assert_eq!(validate_send_input(&state, false, "task run"), Err(SraError::NotRunning));
}

#[test]
fn accepted_input_gets_newline_terminated() {
    let state = running();
    assert_eq!(validate_send_input(&state, true, "task run"), Ok("task run\n".to_string()));
}

#[test]
fn error_messages_are_fixed() {
    assert_eq!(SraError::InvalidArgument.message(), "input must not be empty");
    assert_eq!(SraError::NotRunning.message(), "the worker process is not running");
    assert_eq!(SraError::NotFound.message(), "worker executable not found");
    assert_eq!(SraError::SpawnFailure.message(), "failed to launch the worker process");
    assert_eq!(SraError::IOError.message(), "input/output failure");
    assert_eq!(SraError::LockContention.message(), "internal lock unavailable");
}

#[test]
fn submitted_input_is_echoed_with_prefix() {
    assert_eq!(input_echo("task run"), ">>> task run");
}

#[test]
fn task_commands() {
    assert_eq!(task_run_command(&None), "task run");
    assert_eq!(task_run_command(&Some(String::new())), "task run");
    assert_eq!(task_run_command(&Some("Daily".to_string())), "task run Daily");
    assert_eq!(task_stop_command(), "task stop");
    assert_eq!(graceful_stop_command(), "exit\n");
}

#[test]
fn launch_plan_holds_flag_arguments_and_env() {
    let plan = plan_launch(&Some("task run --fast".to_string()));
    let args: Vec<&str> = plan.args.iter().map(|s| s.as_str()).collect();
    assert_eq!(args, ["--inline", "task", "run", "--fast"]);
    assert_eq!(plan.env.len(), 2);
    assert_eq!(plan.env[0].0, "PYTHONUNBUFFERED");
    assert_eq!(plan.env[0].1, "1");
    assert_eq!(plan.env[1].0, "PYTHONIOENCODING");
    assert_eq!(plan.env[1].1, "utf-8");

    let bare = plan_launch(&None);
    let args: Vec<&str> = bare.args.iter().map(|s| s.as_str()).collect();
    assert_eq!(args, ["--inline"]);
}

#[test]
fn markers_signal_task_state() {
    assert_eq!(
        scan_status_markers("12:00:00[1] | INFO | [Start] daily tasks"),
        Some(SraStatus::TaskRunning)
    );
    assert_eq!(scan_status_markers("all [Done] now"), Some(SraStatus::Running));
    assert_eq!(scan_status_markers("nothing special"), None);
}

#[test]
fn prompt_line_flushes_without_being_recorded() {
    let mut parser = SraLogParser::new();
    assert!(pump_output_line(&mut parser, "menu text").0.is_empty());
    let (out, status) = pump_output_line(&mut parser, "sra> ");
    assert_eq!(status, None);
    assert_eq!(out.len(), 1);
    assert_eq!(out[0].level, LogLevel::MSG);
    assert_eq!(out[0].message, "menu text");
    // The prompt itself never becomes an entry.
    assert!(pump_output_line(&mut parser, "sra>").0.is_empty());
}

#[test]
fn output_line_parses_and_reports_marker() {
    let mut parser = SraLogParser::new();
    let (out, status) = pump_output_line(&mut parser, "12:00:00[1] | INFO | [Start] warp");
    assert_eq!(status, Some(SraStatus::TaskRunning));
    assert_eq!(out.len(), 1);
    assert_eq!(out[0].message, "[Start] warp");
}

#[test]
fn error_stream_lines_are_parsed_too() {
    let mut parser = SraLogParser::new();
    assert!(pump_error_line(&mut parser, "  ").is_empty());
    let out = pump_error_line(&mut parser, "12:00:00[1] | WARNING | late");
    assert_eq!(out.len(), 1);
    assert_eq!(out[0].level, LogLevel::WARN);
}

#[test]
fn assembler_reunites_split_lines() {
    let mut acc = LineAssembler::new();
    assert!(acc.push_chunk("partial").is_empty());
    let lines = acc.push_chunk(" line\nsecond\nthird part");
    assert_eq!(lines, ["partial line", "second"]);
    let lines = acc.push_chunk("\n");
    assert_eq!(lines, ["third part"]);
    assert_eq!(acc.take_remainder(), "");
}

#[test]
fn assembler_hands_out_the_tail_at_stream_end() {
    let mut acc = LineAssembler::new();
    assert!(acc.push_chunk("no newline yet").is_empty());
    assert_eq!(acc.take_remainder(), "no newline yet");
    assert_eq!(acc.take_remainder(), "");
}
