use bouclier_bleu::actor::{next_turn, DaemonActor, LoopEvent, Reaction, DRAIN_LIMIT, TICK_MS};
use bouclier_bleu::engine::BpfEngine;
use bouclier_bleu::ipc::{
    command_for, handle_connection, parse_command, payload, shown_reply, socket_replaced,
    verify_peercred, ConnAction, ConnEvent, DaemonCmd, IpcMessage, SendOutcome, SocketMeta,
    REQUEST_LIMIT, SOCKET_DIR, SOCKET_PATH,
};
use bouclier_bleu::module::{build_registry, DefenseModule, HeuristicModule, SecurityModule};

fn empty_actor() -> DaemonActor<HeuristicModule, ()> {
    DaemonActor { engine: BpfEngine::new(), registry: Vec::new() }
}

fn reply(reaction: Reaction) -> String {
    match reaction {
        Reaction::Reply(text) => text,
        Reaction::SetState { .. } => panic!("a reply was expected"),
    }
}

#[test]
fn test_handle_command_status() {
    let actor = empty_actor();
    let response = reply(actor.handle_command(DaemonCmd::Status));
    assert_eq!(response, "Bouclier Bleu EDR Status: Kernel Engine Running\n");
}

#[test]
fn test_handle_command_list_empty() {
    let actor = empty_actor();
    let response = reply(actor.handle_command(DaemonCmd::List));
    assert_eq!(response, "MODULE REGISTRY:\n");
}

#[test]
fn test_toggle_module_not_loaded() {
    let actor = empty_actor();
    let response = reply(actor.handle_command(DaemonCmd::Enable("exec_block".to_string())));
    assert!(response.contains("ERROR: Module 'exec_block' is not loaded in kernel memory."));
}

#[test]
fn test_toggle_module_disable_not_active() {
    let actor = empty_actor();
    let response = reply(actor.handle_command(DaemonCmd::Disable("shield".to_string())));
    assert!(response.contains("ERROR: Module 'shield' is not currently active\n"));
}

#[test]
fn module_follows_the_kernel() {
    let mut actor = DaemonActor { engine: BpfEngine::new(), registry: build_registry() };
    actor.engine.insert("exec_block", ());
    match actor.handle_command(DaemonCmd::Disable("exec_block".to_string())) {
        Reaction::SetState { target, enable } => {
            assert_eq!(target, "exec_block");
            assert!(!enable);
        }
        Reaction::Reply(_) => panic!("a loaded module can be toggled"),
    }
    let done = actor.complete_toggle("exec_block", false, Ok(()));
    assert_eq!(
        done.reply,
        "SUCCESS: Defense module 'exec_block' has been DISABLED via state_map synchronization\n"
    );
    assert!(done.registered);
    assert!(!actor.registry[0].status());
    assert!(actor.registry[1].status());
    let list = reply(actor.handle_command(DaemonCmd::List));
    assert!(list.contains(" [INACTIVE] exec_block (Untrusted Path Execution Prevention)\n"));
    assert!(list.contains(" [ACTIVE]   rename_entropy (Ransomware Rename Entropy Monitor)\n"));
    let done = actor.complete_toggle("exec_block", true, Ok(()));
    assert_eq!(
        done.reply,
        "SUCCESS: Defense module 'exec_block' has been ENABLED via state_map synchronization\n"
    );
    assert!(actor.registry[0].status());
}

#[test]
fn a_refusal_of_the_kernel_changes_nothing() {
    let mut actor = DaemonActor { engine: BpfEngine::new(), registry: build_registry() };
    actor.engine.insert("shield", ());
    let before = reply(actor.handle_command(DaemonCmd::List));
    let done = actor.complete_toggle("shield", false, Err("EPERM".to_string()));
    assert_eq!(done.reply, "ERROR: Failed to update kernel state for 'shield': EPERM\n");
    assert!(!done.registered);
    assert_eq!(reply(actor.handle_command(DaemonCmd::List)), before);
}

#[test]
fn toggling_back_restores_the_list() {
    let mut actor = DaemonActor {
        engine: BpfEngine::new(),
        registry: vec![DefenseModule::new("A", "a"), DefenseModule::new("B", "b")],
    };
    actor.engine.insert("a", ());
    let before = reply(actor.handle_command(DaemonCmd::List));
    assert_eq!(before, "MODULE REGISTRY:\n [ACTIVE]   a (A)\n [ACTIVE]   b (B)\n");
    actor.complete_toggle("a", false, Ok(()));
    assert_ne!(reply(actor.handle_command(DaemonCmd::List)), before);
    actor.complete_toggle("a", true, Ok(()));
    assert_eq!(reply(actor.handle_command(DaemonCmd::List)), before);
    // A program without a module: the kernel changes, the registry does not.
    let done = actor.complete_toggle("c", true, Ok(()));
    assert!(!done.registered);
    assert_eq!(reply(actor.handle_command(DaemonCmd::List)), before);
}

#[test]
fn telemetry_is_polled_between_commands() {
    let turn = next_turn(LoopEvent::Command);
    assert!(turn.handle && turn.poll && !turn.stop);
    assert_eq!(turn.drain, DRAIN_LIMIT);
    assert_eq!(DRAIN_LIMIT, 10);
    assert_eq!(TICK_MS, 50);
    let turn = next_turn(LoopEvent::Idle);
    assert!(!turn.handle && turn.poll && !turn.stop);
    assert_eq!(turn.drain, 0);
    let turn = next_turn(LoopEvent::Disconnected);
    assert!(!turn.handle && !turn.poll && turn.stop);
}

#[test]
fn commands_are_parsed() {
    assert!(matches!(parse_command(b"STATUS"), Ok(Some(DaemonCmd::Status))));
    assert!(matches!(parse_command(b" list\n"), Ok(Some(DaemonCmd::List))));
    match parse_command(b"Enable exec_block now") {
        Ok(Some(DaemonCmd::Enable(target))) => assert_eq!(target, "exec_block"),
        _ => panic!("an enable command was sent"),
    }
    match parse_command(b"DISABLE\texec_block\n") {
        Ok(Some(DaemonCmd::Disable(target))) => assert_eq!(target, "exec_block"),
        _ => panic!("a disable command was sent"),
    }
    assert!(matches!(parse_command(b""), Ok(None)));
    assert!(matches!(parse_command(b" \n\t"), Ok(None)));
    assert_eq!(parse_command(b"ENABLE").err(), Some("Unknown command"));
    assert_eq!(parse_command(b"DISABLE ").err(), Some("Unknown command"));
    assert_eq!(parse_command(b"REBOOT now").err(), Some("Unknown command"));
    assert_eq!(parse_command(b"\xff\xfe").err(), Some("Unknown command"));
    // The long s is an S in uppercase.
    assert!(matches!(parse_command("\u{17f}tatus".as_bytes()), Ok(Some(DaemonCmd::Status))));
    assert!(command_for("status", None).is_none());
}

#[test]
fn what_a_client_sends_is_what_the_daemon_reads() {
    for cmd in [
        DaemonCmd::Status,
        DaemonCmd::List,
        DaemonCmd::Enable("rename_entropy".to_string()),
        DaemonCmd::Disable("é".to_string()),
    ] {
        let sent = payload(&cmd);
        let read = parse_command(sent.as_bytes()).ok().unwrap().unwrap();
        assert_eq!(payload(&read), sent);
    }
    assert_eq!(payload(&DaemonCmd::Enable("shield".to_string())), "ENABLE shield");
    assert_eq!(payload(&DaemonCmd::Disable("shield".to_string())), "DISABLE shield");
}

#[test]
fn only_root_is_admitted() {
    assert_eq!(verify_peercred(Ok(0)), Ok(()));
    assert_eq!(
        verify_peercred(Ok(1000)),
        Err("SECURITY ALERT: Non-root process (UID: 1000) attempted IPC connection.".to_string())
    );
    assert_eq!(
        verify_peercred(Err("EBADF".to_string())),
        Err("SECURITY ERROR: Kernel failed to yield peer credentials: EBADF. Dropping connection.".to_string())
    );
    for credentials in [Ok(1000), Err("EBADF".to_string())] {
        let (action, line) = handle_connection(ConnEvent::Peer(credentials));
        match action {
            ConnAction::Respond(text) => {
                assert_eq!(text, "ERROR: Permission denied. Root access required.\n")
            }
            _ => panic!("a stranger must be refused"),
        }
        assert!(line.is_some());
    }
}

#[test]
fn a_connection_runs_its_course() {
    let (action, line) = handle_connection(ConnEvent::Peer(Ok(0)));
    assert!(matches!(action, ConnAction::SetReadTimeout) && line.is_none());
    assert!(matches!(handle_connection(ConnEvent::ReadTimeout(Ok(()))).0, ConnAction::SetWriteTimeout));
    assert!(matches!(handle_connection(ConnEvent::WriteTimeout(Ok(()))).0, ConnAction::Receive));
    match handle_connection(ConnEvent::Request(Some(b"DISABLE exec_block".to_vec()))).0 {
        ConnAction::Dispatch(cmd) => {
            let message = IpcMessage { cmd, reply: () };
            assert!(matches!(message.cmd, DaemonCmd::Disable(_)));
        }
        _ => panic!("a command must be dispatched"),
    }
    assert!(matches!(handle_connection(ConnEvent::Sent(SendOutcome::Queued)).0, ConnAction::AwaitReply));
    match handle_connection(ConnEvent::Reply(Some("done\n".to_string()))).0 {
        ConnAction::Respond(text) => assert_eq!(text, "done\n"),
        _ => panic!("the reply must be passed on"),
    }
}

#[test]
fn a_connection_that_fails_is_answered() {
    let respond = |event: ConnEvent| match handle_connection(event).0 {
        ConnAction::Respond(text) => text,
        _ => panic!("an answer was expected"),
    };
    assert_eq!(respond(ConnEvent::Request(None)), "ERROR: Unknown command received.\n");
    assert_eq!(respond(ConnEvent::Request(Some(b"nonsense".to_vec()))), "ERROR: Unknown command received.\n");
    assert_eq!(respond(ConnEvent::Sent(SendOutcome::Full)), "ERROR: Daemon is busy or overwhelmed. Try again later.\n");
    assert_eq!(respond(ConnEvent::Sent(SendOutcome::Disconnected)), "FATAL: Core engine has crashed. Channel disconnected.\n");
    assert_eq!(respond(ConnEvent::Reply(None)), "ERROR: Engine operation timed out or panicked.\n");
    assert!(matches!(handle_connection(ConnEvent::Request(Some(b" ".to_vec()))).0, ConnAction::Close));
    let (action, line) = handle_connection(ConnEvent::ReadTimeout(Err("e".to_string())));
    assert!(matches!(action, ConnAction::Close));
    assert_eq!(line, Some("WARNING: Failed to apply read timeout to stream: e".to_string()));
    let (action, line) = handle_connection(ConnEvent::WriteTimeout(Err("e".to_string())));
    assert!(matches!(action, ConnAction::Close));
    assert_eq!(line, Some("WARNING: Failed to apply write timeout to stream: e".to_string()));
}

#[test]
fn a_replaced_socket_is_noticed() {
    assert!(!socket_replaced(None));
    assert!(!socket_replaced(Some(SocketMeta { uid: 0, is_symlink: false })));
    assert!(socket_replaced(Some(SocketMeta { uid: 1, is_symlink: false })));
    assert!(socket_replaced(Some(SocketMeta { uid: 0, is_symlink: true })));
    assert_eq!(SOCKET_PATH, format!("{}/control.sock", SOCKET_DIR));
    assert_eq!(REQUEST_LIMIT, 1024);
}

#[test]
fn replies_are_shown_without_trailing_space() {
    assert_eq!(shown_reply("MODULE REGISTRY:\n a\n\n"), "MODULE REGISTRY:\n a");
    assert_eq!(shown_reply("  x \t"), "  x");
    assert_eq!(shown_reply("\n"), "");
}

#[test]
fn a_request_is_read_up_to_its_limit() {
    let limit = REQUEST_LIMIT as usize;
    let mut sent = vec![b' '; limit - 6];
    sent.extend_from_slice(b"STATUS");
    assert!(matches!(parse_command(&sent), Ok(Some(DaemonCmd::Status))));
    // What follows does not change the word, nor is it one.
    sent.extend_from_slice(b"ES and more");
    assert!(matches!(parse_command(&sent), Ok(Some(DaemonCmd::Status))));
    match handle_connection(ConnEvent::Request(Some(sent))) {
        (ConnAction::Dispatch(DaemonCmd::Status), None) => {}
        _ => panic!("the command must be dispatched"),
    }
    let mut late = vec![b' '; limit];
    late.extend_from_slice(b"STATUS");
    assert!(matches!(parse_command(&late), Ok(None)));
    let mut cut = b"ENABLE ".to_vec();
    cut.resize(2 * limit, b'x');
    match parse_command(&cut) {
        Ok(Some(DaemonCmd::Enable(target))) => assert_eq!(target.len(), limit - 7),
        _ => panic!("a name that is cut is still a name"),
    }
}
