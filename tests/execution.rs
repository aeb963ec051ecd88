use urd::commands::{help_commands, unknown_command, ClearPhase, ClearRun, ClearStep, CommandStatus};
use urd::dispatch::{parse_verb, CommandClass, ControlVerb, DispatchQueue, ExecutionPriority, Route};
use urd::error::URError;
use urd::execution::{RunStep, ScriptRun, URScriptStatus};
use urd::interpreter::{parse_reply, with_newline, CommandResult};
use urd::script::{split_blocks, ClearSchedule, CLEAR_BUFFER_LIMIT};

fn reply(text: &str) -> CommandResult {
    parse_reply(text).expect("well-formed reply")
}

fn sent_line(run: &ScriptRun) -> String {
    match run.next_step() {
        RunStep::Send(line) => line,
        other => panic!("expected a line to send, got {:?}", other),
    }
}

#[test]
fn reply_with_id() {
    let r = reply("STATE: 42");
    assert_eq!(r.id, 42);
    assert!(!r.rejected);
    assert_eq!(r.raw_reply, "STATE: 42");
}

#[test]
fn reply_without_space_or_id() {
    assert_eq!(reply("ack:17").id, 17);
    let r = reply("ack:");
    assert_eq!(r.id, 0);
    assert!(!r.rejected);
}

#[test]
fn reply_discard_is_rejection() {
    let r = reply("discard:");
    assert!(r.rejected);
    assert_eq!(r.id, 0);
    let r = reply("discard: 12");
    assert!(r.rejected);
    assert_eq!(r.id, 0);
}

#[test]
fn reply_id_too_large_reads_as_zero() {
    assert_eq!(reply("STATE: 4294967295").id, 4294967295);
    assert_eq!(reply("STATE: 4294967296").id, 0);
}

#[test]
fn reply_malformed_is_protocol_error() {
    for bad in ["", "STATE", ":12", "STATE: 12x", "STATE: -3", " STATE: 3"] {
        match parse_reply(bad) {
            Err(URError::Protocol(m)) => assert!(m.contains("Invalid interpreter reply format")),
            other => panic!("{:?} gave {:?}", bad, other),
        }
    }
}

#[test]
fn newline_appended_once() {
    assert_eq!(with_newline("halt"), "halt\n");
    assert_eq!(with_newline("halt\n"), "halt\n");
    assert_eq!(with_newline(""), "\n");
}

#[test]
fn blocks_skip_blank_and_comment_lines() {
    let blocks = split_blocks("  movej([0,0,0,0,0,0])  \n\n# comment\n\tsleep(1)\r\n   \n");
    assert_eq!(blocks, vec!["movej([0,0,0,0,0,0])".to_string(), "sleep(1)".to_string()]);
    assert!(split_blocks("").is_empty());
    assert!(split_blocks("# only\n\n").is_empty());
    assert_eq!(split_blocks("a"), vec!["a".to_string()]);
}

#[test]
fn empty_submission_is_refused() {
    assert!(matches!(ScriptRun::new("\n# nothing\n"), Err(URError::EmptyBlock)));
}

#[test]
fn sentinel_completion() {
    let mut run = ScriptRun::new("movej([0,0,0,0,0,0])\n").unwrap();
    assert_eq!(sent_line(&run), "movej([0,0,0,0,0,0])");
    run.on_reply(&reply("STATE: 42"));
    assert_eq!(sent_line(&run), "time(0)");
    run.on_reply(&reply("STATE: 43"));
    assert!(matches!(run.next_step(), RunStep::Poll));
    for _ in 0..8 {
        let p = run.on_cursor(42);
        assert!(!p.done);
        assert!(matches!(run.next_step(), RunStep::Poll));
    }
    let p = run.on_cursor(43);
    assert!(p.done);
    assert_eq!(p.completed_now, vec![true]);
    let result = run.result().unwrap();
    assert!(matches!(result.status, URScriptStatus::Completed));
    assert_eq!(result.id, 42);
    assert_eq!(result.termination_id, Some(43));
    assert!(matches!(run.next_step(), RunStep::Finished));
}

#[test]
fn rejection() {
    let mut run = ScriptRun::new("bogus_statement()\n").unwrap();
    let _ = sent_line(&run);
    run.on_reply(&reply("discard:"));
    assert!(matches!(run.next_step(), RunStep::Finished));
    let result = run.result().unwrap();
    match result.status {
        URScriptStatus::Failed(m) => assert_eq!(m, "Block 1 rejected: discard:"),
        other => panic!("{:?}", other),
    }
    assert_eq!(result.id, 0);
    assert_eq!(result.termination_id, None);
}

#[test]
fn rejection_of_a_later_block_keeps_first_id() {
    let mut run = ScriptRun::new("a()\nb()\nc()\n").unwrap();
    run.on_reply(&reply("STATE: 7"));
    run.on_reply(&reply("STATE: 8"));
    assert_eq!(sent_line(&run), "c()");
    run.on_reply(&reply("discard:"));
    let result = run.result().unwrap();
    assert_eq!(result.id, 7);
    match result.status {
        URScriptStatus::Failed(m) => assert_eq!(m, "Block 3 rejected: discard:"),
        other => panic!("{:?}", other),
    }
}

#[test]
fn blocks_start_and_complete_in_id_order() {
    let mut run = ScriptRun::new("a()\nb()\n").unwrap();
    run.on_reply(&reply("STATE: 10"));
    run.on_reply(&reply("STATE: 11"));
    run.on_reply(&reply("STATE: 12"));
    let p = run.on_cursor(10);
    assert_eq!(p.started_now, vec![true, false]);
    assert_eq!(p.completed_now, vec![false, false]);
    let p = run.on_cursor(11);
    assert_eq!(p.started_now, vec![false, true]);
    assert_eq!(p.completed_now, vec![true, false]);
    assert!(!p.done);
    let p = run.on_cursor(12);
    assert_eq!(p.completed_now, vec![false, true]);
    assert!(p.done);
    let result = run.result().unwrap();
    assert_eq!(result.id, 10);
    assert_eq!(result.termination_id, Some(12));
}

#[test]
fn rejected_sentinel_waits_for_last_block() {
    let mut run = ScriptRun::new("a()\nb()\n").unwrap();
    run.on_reply(&reply("STATE: 20"));
    run.on_reply(&reply("STATE: 21"));
    run.on_reply(&reply("discard:"));
    assert!(!run.on_cursor(20).done);
    assert!(run.on_cursor(21).done);
    assert_eq!(run.result().unwrap().termination_id, None);
}

#[test]
fn emergency_bypass() {
    let q = DispatchQueue::new();
    assert_eq!(q.route(CommandClass::classify("@halt")), Route::Immediate);
    let mut halt = ClearRun::new(true);
    assert_eq!(halt.next_step(), ClearStep::PrimaryHalt);
    halt.on_primary_halted();
    assert_eq!(halt.next_step(), ClearStep::QueryLastInterpreted);

    let mut run = ScriptRun::new("movej([0,0,0,0,0,0])\n").unwrap();
    run.on_reply(&reply("STATE: 5"));
    run.on_reply(&reply("STATE: 6"));
    assert!(!run.on_cursor(4).done);
    run.interrupt();
    match run.result().unwrap().status {
        URScriptStatus::Failed(m) => assert_eq!(m, "Interrupted by shutdown signal"),
        other => panic!("{:?}", other),
    }
}

#[test]
fn priority_override() {
    let mut q = DispatchQueue::new();
    let a = q.submit("movej_a()".to_string());
    let b = q.submit("movej_b()".to_string());
    let c = q.submit("movej_c()".to_string());
    let first = q.pop_next().unwrap();
    assert_eq!(first.id, a);
    let s = q.submit("@status".to_string());
    assert!(q.pop_next().is_none());
    q.finish_current();
    let mut order = Vec::new();
    while let Some(e) = q.pop_next() {
        order.push(e.id);
        q.finish_current();
    }
    assert_eq!(order, vec![s, b, c]);
}

#[test]
fn queue_is_fifo_within_priority_and_counts() {
    let mut q = DispatchQueue::new();
    let at_clear = q.enqueue(1, "@clear".to_string());
    let at_pose = q.enqueue(2, "@pose".to_string());
    let at_health = q.enqueue(3, "@health".to_string());
    let at_script = q.enqueue(4, "x = 1".to_string());
    assert_eq!((at_clear, at_pose, at_health, at_script), (0, 0, 1, 3));
    let ids: Vec<u128> = q.items.iter().map(|e| e.id).collect();
    assert_eq!(ids, vec![2, 3, 1, 4]);
    let st = q.get_queue_state();
    assert_eq!(st.total_queued, 4);
    assert_eq!(st.current_executing, None);
    assert_eq!(
        st.queue_by_priority,
        vec![(ExecutionPriority::High, 2), (ExecutionPriority::Normal, 2)]
    );
    assert_eq!(q.clear_queue(), 4);
    assert!(q.get_queue_state().queue_by_priority.is_empty());
}

#[test]
fn disabled_queue_runs_directly() {
    let mut q = DispatchQueue::new();
    q.enqueue(9, "a()".to_string());
    q.disable_queue();
    assert!(q.items.is_empty());
    assert_eq!(q.route(CommandClass::URScript), Route::Direct);
    assert!(q.pop_next().is_none());
    q.enable_queue();
    assert_eq!(q.route(CommandClass::Meta), Route::Enqueue);
}

#[test]
fn submission_ids_are_version_four() {
    let mut q = DispatchQueue::new();
    let a = q.submit("a()".to_string());
    let b = q.submit("b()".to_string());
    assert_ne!(a, b);
    assert_eq!((a >> 76) & 0xf, 4);
}

#[test]
fn classification_and_priority() {
    assert_eq!(CommandClass::classify("@halt"), CommandClass::Emergency);
    assert_eq!(CommandClass::classify("@halt\n"), CommandClass::Emergency);
    assert_eq!(CommandClass::classify("@status"), CommandClass::Query);
    assert_eq!(CommandClass::classify("@health"), CommandClass::Query);
    assert_eq!(CommandClass::classify("@pose"), CommandClass::Query);
    assert_eq!(CommandClass::classify("@clear"), CommandClass::Meta);
    assert_eq!(CommandClass::classify("@reconnect"), CommandClass::Meta);
    assert_eq!(CommandClass::classify("@help"), CommandClass::Meta);
    assert_eq!(CommandClass::classify("@frobnicate"), CommandClass::Meta);
    assert_eq!(CommandClass::classify("movej([0,0,0,0,0,0])"), CommandClass::URScript);
    assert_eq!(CommandClass::classify(""), CommandClass::URScript);
    assert_eq!(CommandClass::Emergency.to_priority(), ExecutionPriority::Emergency);
    assert_eq!(CommandClass::Query.to_priority(), ExecutionPriority::High);
    assert_eq!(CommandClass::Meta.to_priority(), ExecutionPriority::Normal);
    assert_eq!(CommandClass::URScript.to_priority(), ExecutionPriority::Normal);
    assert_eq!(ExecutionPriority::Emergency.level(), 3);
}

#[test]
fn verbs_and_unknown_command() {
    assert_eq!(parse_verb("@pose"), Some(ControlVerb::Pose));
    assert_eq!(parse_verb("@  help extra"), Some(ControlVerb::Help));
    assert_eq!(parse_verb("@dance now"), Some(ControlVerb::Unknown("dance".to_string())));
    assert_eq!(parse_verb("@"), Some(ControlVerb::Unknown(String::new())));
    assert_eq!(parse_verb("halt"), None);
    let r = unknown_command("@dance now", "dance");
    assert_eq!(r.command, "@dance now");
    match r.status {
        CommandStatus::Failed(m) => assert_eq!(m, "Unknown command: dance"),
        other => panic!("{:?}", other),
    }
    assert_eq!(help_commands().len(), 7);
    assert_eq!(help_commands()[0], "@halt");
}

#[test]
fn clear_protocol_waits_for_execution() {
    let mut c = ClearRun::new(false);
    assert_eq!(c.next_step(), ClearStep::QueryLastInterpreted);
    c.on_last_interpreted(30);
    assert_eq!(c.next_step(), ClearStep::QueryLastExecuted);
    c.on_last_executed(29);
    assert_eq!(c.next_step(), ClearStep::QueryLastExecuted);
    c.on_last_executed(30);
    assert_eq!(c.next_step(), ClearStep::SendClear);
    c.on_cleared(31);
    assert_eq!(c.next_step(), ClearStep::Done);
    assert_eq!(c.clear_id, Some(31));

    let mut c = ClearRun::new(false);
    c.on_last_interpreted(0);
    assert_eq!(c.phase, ClearPhase::Clearing);

    let mut c = ClearRun::new(false);
    c.on_last_interpreted(5);
    c.on_interrupted();
    assert!(c.interrupted);
    assert_eq!(c.next_step(), ClearStep::Done);
}

#[test]
fn auto_clear_once_per_limit_outside_braces() {
    let mut s = ClearSchedule::new(CLEAR_BUFFER_LIMIT);
    let mut clears = Vec::new();
    for i in 1..=1000u32 {
        if s.record_submission("movel(p[0,0,0,0,0,0])", true) {
            clears.push(i);
        }
    }
    assert_eq!(clears, vec![500, 1000]);
    assert!(!s.record_submission("textmsg(1)", false));
    assert_eq!(s.get_stats().urscript_count, 1000);
}

#[test]
fn auto_clear_never_inside_braces() {
    let mut s = ClearSchedule::new(3);
    assert!(!s.record_submission("def prog() {", true));
    assert!(s.inside_brace_block);
    for _ in 0..10 {
        assert!(!s.record_submission("movej(q)", true));
    }
    assert!(s.record_submission("}", true));
    assert!(!s.inside_brace_block);
}

#[test]
fn brace_tracking_follows_last_brace() {
    let mut s = ClearSchedule::new(500);
    s.update_brace_tracking("if x { a }");
    assert!(!s.inside_brace_block);
    s.update_brace_tracking("} else {");
    assert!(s.inside_brace_block);
    s.update_brace_tracking("no braces here");
    assert!(s.inside_brace_block);
    s.update_brace_tracking("{ { }");
    assert!(!s.inside_brace_block);
    assert!(!s.should_auto_clear() || s.urscript_count % 500 == 0);
}
