use tubu::printer::{Printer, PrinterAction, PrinterMessage};

#[test]
fn text_without_bar_is_printed_plainly() {
    let mut p = Printer::new();
    assert!(matches!(p.process(PrinterMessage::Text("hi".to_string())), PrinterAction::PrintLine(t) if t == "hi"));
}

#[test]
fn bar_messages_before_setup_are_ignored() {
    let mut p = Printer::new();
    assert!(matches!(p.process(PrinterMessage::IncPB), PrinterAction::Nothing));
    assert!(matches!(p.process(PrinterMessage::FinalizePB), PrinterAction::Nothing));
    assert!(p.active);
    assert_eq!(p.bar, None);
}

#[test]
fn setup_advance_and_finalize() {
    let mut p = Printer::new();
    assert!(matches!(p.process(PrinterMessage::SetupPB(3)), PrinterAction::CreateBar(3)));
    assert!(matches!(p.process(PrinterMessage::IncPB), PrinterAction::AdvanceBar));
    assert!(matches!(p.process(PrinterMessage::Text("x".to_string())), PrinterAction::PrintAboveBar(t) if t == "x"));
    assert!(matches!(p.process(PrinterMessage::FinalizePB), PrinterAction::RedrawBar));
    assert!(!p.active);
    assert_eq!(p.bar, Some(3));
}

#[test]
fn finalized_printer_is_silent_until_new_bar() {
    let mut p = Printer::new();
    p.process(PrinterMessage::SetupPB(2));
    p.process(PrinterMessage::FinalizePB);
    for msg in [
        PrinterMessage::Text("late".to_string()),
        PrinterMessage::IncPB,
        PrinterMessage::FinalizePB,
    ] {
        assert!(matches!(p.process(msg), PrinterAction::Nothing));
    }
    assert!(matches!(p.process(PrinterMessage::SetupPB(5)), PrinterAction::CreateBar(5)));
    assert!(p.active);
    assert!(matches!(p.process(PrinterMessage::IncPB), PrinterAction::AdvanceBar));
}

#[test]
fn bar_advances_once_per_increment() {
    let mut p = Printer::new();
    p.process(PrinterMessage::SetupPB(10));
    let msgs = vec![
        PrinterMessage::IncPB,
        PrinterMessage::Text("a".to_string()),
        PrinterMessage::IncPB,
        PrinterMessage::IncPB,
    ];
    let advances = msgs
        .into_iter()
        .map(|m| p.process(m))
        .filter(|a| matches!(a, PrinterAction::AdvanceBar))
        .count();
    assert_eq!(advances, 3);
}

#[test]
fn bar_tracks_messages_after_setup() {
    let mut p = Printer::new();
    let msgs = vec![
        PrinterMessage::IncPB,
        PrinterMessage::Text("before".to_string()),
        PrinterMessage::SetupPB(4),
        PrinterMessage::IncPB,
        PrinterMessage::Text("mid".to_string()),
        PrinterMessage::IncPB,
        PrinterMessage::FinalizePB,
        PrinterMessage::IncPB,
    ];
    let actions: Vec<PrinterAction> = msgs.into_iter().map(|m| p.process(m)).collect();
    let advances_after_setup = actions[3..]
        .iter()
        .filter(|a| matches!(a, PrinterAction::AdvanceBar))
        .count();
    assert_eq!(advances_after_setup, 2);
    assert_eq!(p.bar, Some(4));
    assert!(!p.active);
}
