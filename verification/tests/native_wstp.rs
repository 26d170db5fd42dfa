use wolfie::native_wstp::{
    debug_text, expr_string_value, initial_packet_action, input_form_string_evaluation,
    input_request_prompt, input_response_text, last_input_name, last_text_result, on_packet,
    packet_from_payload, packet_is_terminal, packet_layout, packet_name, packet_output_bytes,
    packet_summary, packet_text_result, render_packets, return_expression_text,
    return_text_is_suppressed, text_is_input_prompt, wstp_user_input_text, InitialAction,
    KernelInputKind, KernelPacket, PacketExpr, PacketLayout, PacketPayload, ReadAction,
    RenderItem, CALLPKT, INPUTNAMEPKT, INPUTPKT, MENUPKT, RETURNPKT, TEXTPKT,
};
use wolfie::wl::wolfram_string_literal;
use wolfram_expr::Expr;

fn expr_of(expr: &Expr, string_value: Option<&str>) -> PacketExpr {
    PacketExpr {
        text: expr.to_string(),
        string_value: string_value.map(|s| s.to_string()),
    }
}

fn printed(text: &str) -> PacketExpr {
    PacketExpr {
        text: text.to_string(),
        string_value: None,
    }
}

#[test]
fn return_expression_text_preserves_string_quotes() {
    assert_eq!(
        return_expression_text(&expr_of(&Expr::string("abc"), Some("abc"))),
        "\"abc\""
    );
}

#[test]
fn user_input_is_evaluated_as_input_form_string() {
    assert_eq!(
        wstp_user_input_text("\"abc\""),
        "ToString[\"abc\", InputForm]"
    );
}

#[test]
fn null_return_text_is_suppressed() {
    assert!(return_text_is_suppressed(""));
    assert!(return_text_is_suppressed("Null"));
    assert!(!return_text_is_suppressed("\"Null\""));
}

#[test]
fn input_requests_go_through_the_template() {
    assert_eq!(
        wstp_user_input_text("x = Input[\"n? \"]"),
        "ToString[ToExpression[\"x = Input[\\\"n? \\\"]\"], InputForm]"
    );
    assert_eq!(
        wstp_user_input_text("InputString[]"),
        "ToString[ToExpression[\"InputString[]\"], InputForm]"
    );
    assert_eq!(input_form_string_evaluation("1+1"), "ToString[1+1, InputForm]");
}

#[test]
fn string_literals_escape_quotes_and_backslashes() {
    assert_eq!(wolfram_string_literal("a\\b\"c"), "\"a\\\\b\\\"c\"");
    assert_eq!(wolfram_string_literal(""), "\"\"");
}

#[test]
fn debug_text_quotes_and_escapes() {
    assert_eq!(debug_text("a\"b\n"), "\"a\\\"b\\n\"");
}

#[test]
fn packets_are_built_from_their_layout() {
    assert_eq!(packet_layout(CALLPKT), PacketLayout::IntegerAndExpression);
    assert_eq!(packet_layout(MENUPKT), PacketLayout::IntegerAndText);
    assert_eq!(packet_layout(INPUTPKT), PacketLayout::Empty);
    assert_eq!(packet_layout(999), PacketLayout::Empty);
    let p = packet_from_payload(TEXTPKT, PacketPayload::Text("hi".into()));
    assert!(matches!(p, KernelPacket::Text(t) if t == "hi"));
    let p = packet_from_payload(999, PacketPayload::Empty);
    assert!(matches!(p, KernelPacket::Unknown(999)));
    let p = packet_from_payload(RETURNPKT, PacketPayload::Expression(printed("3")));
    assert!(packet_is_terminal(&p));
    assert_eq!(packet_name(INPUTNAMEPKT), "InputNamePacket");
    assert_eq!(packet_name(-1), "unknown packet");
}

#[test]
fn prompts_and_names_are_found_from_the_end() {
    let packets = vec![
        KernelPacket::InputName("In[1]:= ".into()),
        KernelPacket::Text("done\n".into()),
        KernelPacket::Text("Your name: ".into()),
        KernelPacket::Message { symbol: "General".into(), tag: "x".into() },
    ];
    assert_eq!(input_request_prompt(&packets), "Your name: ");
    assert_eq!(input_request_prompt(&packets[..2]), "In[1]:= ");
    assert_eq!(input_request_prompt(&[]), "");
    assert_eq!(last_input_name(&packets), Some("In[1]:= ".to_string()));
    assert_eq!(last_input_name(&packets[1..]), None);
}

#[test]
fn text_results_unquote_strings() {
    let string_result = KernelPacket::Return(expr_of(&Expr::string("abc"), Some("abc")));
    assert_eq!(packet_text_result(&string_result), Some("abc".to_string()));
    let number = KernelPacket::ReturnExpression(printed("42"));
    assert_eq!(packet_text_result(&number), Some("42".to_string()));
    assert_eq!(packet_text_result(&KernelPacket::Input), None);
    assert_eq!(expr_string_value(&printed("42")), None);
    let packets = vec![number, KernelPacket::ReturnText("7".into()), KernelPacket::Resume];
    assert_eq!(last_text_result(&packets), "7");
    assert_eq!(last_text_result(&[]), "");
}

#[test]
fn reading_stops_at_the_right_packet() {
    let mut packets = Vec::new();
    let a = on_packet(&mut packets, KernelPacket::Text("Name? ".into()), true);
    assert!(matches!(a, ReadAction::FinishAndContinue));
    let a = on_packet(&mut packets, KernelPacket::InputString, true);
    match a {
        ReadAction::AnswerInput(request) => {
            assert_eq!(request.kind, KernelInputKind::String);
            assert_eq!(request.prompt, "Name? ");
        }
        _ => panic!("expected an input request"),
    }
    let a = on_packet(&mut packets, KernelPacket::ReturnText("x".into()), true);
    assert!(matches!(a, ReadAction::FinishAndContinue));
    let a = on_packet(&mut packets, KernelPacket::InputName("In[2]:= ".into()), true);
    assert!(matches!(a, ReadAction::FinishAndReturn));
    assert_eq!(packets.len(), 4);
    let mut packets = Vec::new();
    let a = on_packet(&mut packets, KernelPacket::Return(printed("1")), false);
    assert!(matches!(a, ReadAction::Return));
}

#[test]
fn initial_prompt_is_awaited() {
    assert!(matches!(
        initial_packet_action(INPUTNAMEPKT, KernelPacket::InputName("In[1]:= ".into())),
        InitialAction::Prompt(p) if p == "In[1]:= "
    ));
    match initial_packet_action(INPUTPKT, KernelPacket::Input) {
        InitialAction::Refuse(m) => {
            assert_eq!(m, "kernel sent InputPacket before the initial InputNamePacket")
        }
        _ => panic!("expected a refusal"),
    }
    assert!(matches!(
        initial_packet_action(TEXTPKT, KernelPacket::Text("hi".into())),
        InitialAction::Skip
    ));
}

#[test]
fn input_responses_lose_their_line_end() {
    assert_eq!(input_response_text("abc\r\n\n"), "abc");
    assert_eq!(input_response_text("a\nb"), "a\nb");
    assert_eq!(input_response_text("\n"), "");
}

#[test]
fn rendering_follows_the_packets() {
    let packets = vec![
        KernelPacket::Text("partial".into()),
        KernelPacket::OutputName("Out[1]= ".into()),
        KernelPacket::Return(printed("42")),
        KernelPacket::OutputName("Out[2]= ".into()),
        KernelPacket::ReturnText("Null".into()),
        KernelPacket::ReturnText("7".into()),
        KernelPacket::Syntax(-3),
        KernelPacket::Text("Name: ".into()),
        KernelPacket::Input,
    ];
    let items = render_packets(&packets);
    assert_eq!(items.len(), 5);
    assert!(matches!(&items[0], RenderItem::Print(t) if t == "partial"));
    assert!(matches!(&items[1], RenderItem::Print(t) if t == "\n"));
    assert!(matches!(&items[2], RenderItem::Result { output_name: Some(n), text } if n == "Out[1]= " && text == "42"));
    assert!(matches!(&items[3], RenderItem::Result { output_name: None, text } if text == "7"));
    assert!(matches!(&items[4], RenderItem::Print(t) if t == "Syntax error at position -3\n"));
    assert!(text_is_input_prompt(&packets, 7));
    assert!(!text_is_input_prompt(&packets, 0));
}

#[test]
fn summaries_and_sizes() {
    assert_eq!(
        packet_summary(&KernelPacket::Menu { id: 2, title: "t\"".into() }),
        "MenuPacket[2, \"t\\\"\"]"
    );
    assert_eq!(packet_summary(&KernelPacket::Display), "DisplayPacket[]");
    assert_eq!(
        packet_summary(&KernelPacket::Call { function: 5, args: printed("{1}") }),
        "CallPacket[5, {1}]"
    );
    let packets = vec![
        KernelPacket::Text("é".into()),
        KernelPacket::Return(printed("12")),
        KernelPacket::Syntax(4),
    ];
    assert_eq!(packet_output_bytes(&packets), 4);
}

#[test]
fn packet_names_match_summaries() {
    for id in -2..30 {
        let payload = match packet_layout(id) {
            PacketLayout::Empty => PacketPayload::Empty,
            PacketLayout::Integer => PacketPayload::Integer(5),
            PacketLayout::Text => PacketPayload::Text("t\"x".into()),
            PacketLayout::Expression => PacketPayload::Expression(printed("f[1]")),
            PacketLayout::IntegerAndExpression => {
                PacketPayload::IntegerAndExpression(2, printed("{1}"))
            }
            PacketLayout::IntegerAndText => PacketPayload::IntegerAndText(3, "menu".into()),
            PacketLayout::SymbolAndText => {
                PacketPayload::SymbolAndText("General".into(), "tag".into())
            }
        };
        let name = packet_name(id);
        let packet = packet_from_payload(id, payload);
        if name == "unknown packet" {
            assert!(matches!(packet, KernelPacket::Unknown(n) if n == id), "{id}");
            assert_eq!(packet_layout(id), PacketLayout::Empty, "{id}");
        } else {
            assert!(!matches!(packet, KernelPacket::Unknown(_)), "{id}");
            assert!(packet_summary(&packet).starts_with(&format!("{name}[")), "{id}");
        }
    }
    for id in [INPUTPKT, 21, 11, 12, 18, 17] {
        assert_eq!(packet_layout(id), PacketLayout::Empty, "{id}");
    }
}
