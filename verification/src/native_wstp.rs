//! Decisions of the WSTP kernel session: packet classification, rendering plans,
//! the packet-reading state machine and the text sent to the kernel.

use vstd::prelude::*;

verus! {

/// What Rust's `Debug` formatting of a string produces for the characters `text`:
/// the quoted, escaped form.
pub uninterp spec fn debug_escaped(text: Seq<char>) -> Seq<char>;

/// The `Debug` rendering of `text` (`format!("{text:?}")` of std).
/// Trusted: the result is `debug_escaped` of the argument's characters; nothing more
/// is stated of std's escaping rules.
#[verifier::external_body]
pub fn debug_text(text: &str) -> (r: String)
    ensures
        r@ == debug_escaped(text@),
{
    format!("{text:?}")
}

} // verus!

verus! {

/// What the session reads of an expression sent by the kernel: its printed form, and its
/// value when it is a string.
#[derive(Clone, Debug)]
pub struct PacketExpr {
    pub text: String,
    pub string_value: Option<String>,
}

/// The mathematical model of [`PacketExpr`].
pub struct PacketExprView {
    pub text: Seq<char>,
    pub string_value: Option<Seq<char>>,
}

impl View for PacketExpr {
    type V = PacketExprView;

    open spec fn view(&self) -> PacketExprView {
        PacketExprView { text: self.text@, string_value: self.string_value.deep_view() }
    }
}

/// A packet sent by the kernel.
#[derive(Clone, Debug)]
pub enum KernelPacket {
    BeginDialog(i32),
    Call { function: i32, args: PacketExpr },
    DisplayEnd,
    Display,
    EndDialog(i32),
    EnterExpression(PacketExpr),
    EnterText(String),
    Evaluate(PacketExpr),
    InputName(String),
    Input,
    InputString,
    Menu { id: i32, title: String },
    Message { symbol: String, tag: String },
    OutputName(String),
    Resume,
    Return(PacketExpr),
    ReturnExpression(PacketExpr),
    ReturnText(String),
    Suspend,
    Syntax(i32),
    Text(String),
    Unknown(i32),
}

/// The mathematical model of [`KernelPacket`].
pub enum PacketView {
    BeginDialog(i32),
    Call { function: i32, args: PacketExprView },
    DisplayEnd,
    Display,
    EndDialog(i32),
    EnterExpression(PacketExprView),
    EnterText(Seq<char>),
    Evaluate(PacketExprView),
    InputName(Seq<char>),
    Input,
    InputString,
    Menu { id: i32, title: Seq<char> },
    Message { symbol: Seq<char>, tag: Seq<char> },
    OutputName(Seq<char>),
    Resume,
    Return(PacketExprView),
    ReturnExpression(PacketExprView),
    ReturnText(Seq<char>),
    Suspend,
    Syntax(i32),
    Text(Seq<char>),
    Unknown(i32),
}

impl View for KernelPacket {
    type V = PacketView;

    open spec fn view(&self) -> PacketView {
        match self {
            KernelPacket::BeginDialog(id) => PacketView::BeginDialog(*id),
            KernelPacket::Call { function, args } => PacketView::Call { function: *function, args: args@ },
            KernelPacket::DisplayEnd => PacketView::DisplayEnd,
            KernelPacket::Display => PacketView::Display,
            KernelPacket::EndDialog(id) => PacketView::EndDialog(*id),
            KernelPacket::EnterExpression(e) => PacketView::EnterExpression(e@),
            KernelPacket::EnterText(t) => PacketView::EnterText(t@),
            KernelPacket::Evaluate(e) => PacketView::Evaluate(e@),
            KernelPacket::InputName(t) => PacketView::InputName(t@),
            KernelPacket::Input => PacketView::Input,
            KernelPacket::InputString => PacketView::InputString,
            KernelPacket::Menu { id, title } => PacketView::Menu { id: *id, title: title@ },
            KernelPacket::Message { symbol, tag } => PacketView::Message { symbol: symbol@, tag: tag@ },
            KernelPacket::OutputName(t) => PacketView::OutputName(t@),
            KernelPacket::Resume => PacketView::Resume,
            KernelPacket::Return(e) => PacketView::Return(e@),
            KernelPacket::ReturnExpression(e) => PacketView::ReturnExpression(e@),
            KernelPacket::ReturnText(t) => PacketView::ReturnText(t@),
            KernelPacket::Suspend => PacketView::Suspend,
            KernelPacket::Syntax(p) => PacketView::Syntax(*p),
            KernelPacket::Text(t) => PacketView::Text(t@),
            KernelPacket::Unknown(id) => PacketView::Unknown(*id),
        }
    }
}

/// The models of a sequence of packets.
pub open spec fn packets_view(packets: Seq<KernelPacket>) -> Seq<PacketView> {
    packets.map_values(|p: KernelPacket| p@)
}

// The packet kinds of the WSTP protocol, by their numbers on the link.
pub const INPUTPKT: i32 = 1;
pub const TEXTPKT: i32 = 2;
pub const RETURNPKT: i32 = 3;
pub const RETURNTEXTPKT: i32 = 4;
pub const MESSAGEPKT: i32 = 5;
pub const MENUPKT: i32 = 6;
pub const CALLPKT: i32 = 7;
pub const INPUTNAMEPKT: i32 = 8;
pub const OUTPUTNAMEPKT: i32 = 9;
pub const SYNTAXPKT: i32 = 10;
pub const DISPLAYPKT: i32 = 11;
pub const DISPLAYENDPKT: i32 = 12;
pub const EVALUATEPKT: i32 = 13;
pub const ENTERTEXTPKT: i32 = 14;
pub const ENTEREXPRPKT: i32 = 15;
pub const RETURNEXPRPKT: i32 = 16;
pub const SUSPENDPKT: i32 = 17;
pub const RESUMEPKT: i32 = 18;
pub const BEGINDLGPKT: i32 = 19;
pub const ENDDLGPKT: i32 = 20;
pub const INPUTSTRPKT: i32 = 21;

/// What follows the head of a packet on the link, by packet kind.
#[derive(Clone, Copy, Debug, PartialEq, Eq, Structural)]
pub enum PacketLayout {
    Empty,
    Integer,
    Text,
    Expression,
    IntegerAndExpression,
    IntegerAndText,
    SymbolAndText,
}

/// The layout of the packet with identifier `id`.
pub open spec fn layout_of(id: i32) -> PacketLayout {
    if id == BEGINDLGPKT || id == ENDDLGPKT || id == SYNTAXPKT {
        PacketLayout::Integer
    } else if id == CALLPKT {
        PacketLayout::IntegerAndExpression
    } else if id == ENTEREXPRPKT || id == EVALUATEPKT || id == RETURNEXPRPKT || id == RETURNPKT {
        PacketLayout::Expression
    } else if id == ENTERTEXTPKT || id == INPUTNAMEPKT || id == OUTPUTNAMEPKT || id == RETURNTEXTPKT
        || id == TEXTPKT {
        PacketLayout::Text
    } else if id == MENUPKT {
        PacketLayout::IntegerAndText
    } else if id == MESSAGEPKT {
        PacketLayout::SymbolAndText
    } else {
        PacketLayout::Empty
    }
}

/// What to read from the link after the head of packet `id`.
pub fn packet_layout(id: i32) -> (r: PacketLayout)
    ensures
        r == layout_of(id),
{
    if id == BEGINDLGPKT || id == ENDDLGPKT || id == SYNTAXPKT {
        PacketLayout::Integer
    } else if id == CALLPKT {
        PacketLayout::IntegerAndExpression
    } else if id == ENTEREXPRPKT || id == EVALUATEPKT || id == RETURNEXPRPKT || id == RETURNPKT {
        PacketLayout::Expression
    } else if id == ENTERTEXTPKT || id == INPUTNAMEPKT || id == OUTPUTNAMEPKT || id == RETURNTEXTPKT
        || id == TEXTPKT {
        PacketLayout::Text
    } else if id == MENUPKT {
        PacketLayout::IntegerAndText
    } else if id == MESSAGEPKT {
        PacketLayout::SymbolAndText
    } else {
        PacketLayout::Empty
    }
}

/// The parts of a packet that were read from the link.
#[derive(Clone, Debug)]
pub enum PacketPayload {
    Empty,
    Integer(i32),
    Text(String),
    Expression(PacketExpr),
    IntegerAndExpression(i32, PacketExpr),
    IntegerAndText(i32, String),
    SymbolAndText(String, String),
}

/// Whether `payload` has the shape that `layout` asks for.
pub open spec fn payload_fits(payload: PacketPayload, layout: PacketLayout) -> bool {
    match payload {
        PacketPayload::Empty => layout == PacketLayout::Empty,
        PacketPayload::Integer(_) => layout == PacketLayout::Integer,
        PacketPayload::Text(_) => layout == PacketLayout::Text,
        PacketPayload::Expression(_) => layout == PacketLayout::Expression,
        PacketPayload::IntegerAndExpression(_, _) => layout == PacketLayout::IntegerAndExpression,
        PacketPayload::IntegerAndText(_, _) => layout == PacketLayout::IntegerAndText,
        PacketPayload::SymbolAndText(_, _) => layout == PacketLayout::SymbolAndText,
    }
}

/// The packet of kind `id` with the parts read for it.
pub open spec fn packet_of(id: i32, payload: PacketPayload) -> PacketView {
    match payload {
        PacketPayload::Integer(n) => if id == BEGINDLGPKT {
            PacketView::BeginDialog(n)
        } else if id == ENDDLGPKT {
            PacketView::EndDialog(n)
        } else {
            PacketView::Syntax(n)
        },
        PacketPayload::IntegerAndExpression(n, e) => PacketView::Call { function: n, args: e@ },
        PacketPayload::Expression(e) => if id == ENTEREXPRPKT {
            PacketView::EnterExpression(e@)
        } else if id == EVALUATEPKT {
            PacketView::Evaluate(e@)
        } else if id == RETURNEXPRPKT {
            PacketView::ReturnExpression(e@)
        } else {
            PacketView::Return(e@)
        },
        PacketPayload::Text(t) => if id == ENTERTEXTPKT {
            PacketView::EnterText(t@)
        } else if id == INPUTNAMEPKT {
            PacketView::InputName(t@)
        } else if id == OUTPUTNAMEPKT {
            PacketView::OutputName(t@)
        } else if id == RETURNTEXTPKT {
            PacketView::ReturnText(t@)
        } else {
            PacketView::Text(t@)
        },
        PacketPayload::IntegerAndText(n, t) => PacketView::Menu { id: n, title: t@ },
        PacketPayload::SymbolAndText(s, t) => PacketView::Message { symbol: s@, tag: t@ },
        PacketPayload::Empty => if id == DISPLAYENDPKT {
            PacketView::DisplayEnd
        } else if id == DISPLAYPKT {
            PacketView::Display
        } else if id == INPUTPKT {
            PacketView::Input
        } else if id == INPUTSTRPKT {
            PacketView::InputString
        } else if id == RESUMEPKT {
            PacketView::Resume
        } else if id == SUSPENDPKT {
            PacketView::Suspend
        } else {
            PacketView::Unknown(id)
        },
    }
}

/// Builds the packet of kind `id` from the parts read for it.
pub fn packet_from_payload(id: i32, payload: PacketPayload) -> (r: KernelPacket)
    requires
        payload_fits(payload, layout_of(id)),
    ensures
        r@ == packet_of(id, payload),
{
    match payload {
        PacketPayload::Integer(n) => if id == BEGINDLGPKT {
            KernelPacket::BeginDialog(n)
        } else if id == ENDDLGPKT {
            KernelPacket::EndDialog(n)
        } else {
            KernelPacket::Syntax(n)
        },
        PacketPayload::IntegerAndExpression(n, e) => KernelPacket::Call { function: n, args: e },
        PacketPayload::Expression(e) => if id == ENTEREXPRPKT {
            KernelPacket::EnterExpression(e)
        } else if id == EVALUATEPKT {
            KernelPacket::Evaluate(e)
        } else if id == RETURNEXPRPKT {
            KernelPacket::ReturnExpression(e)
        } else {
            KernelPacket::Return(e)
        },
        PacketPayload::Text(t) => if id == ENTERTEXTPKT {
            KernelPacket::EnterText(t)
        } else if id == INPUTNAMEPKT {
            KernelPacket::InputName(t)
        } else if id == OUTPUTNAMEPKT {
            KernelPacket::OutputName(t)
        } else if id == RETURNTEXTPKT {
            KernelPacket::ReturnText(t)
        } else {
            KernelPacket::Text(t)
        },
        PacketPayload::IntegerAndText(n, t) => KernelPacket::Menu { id: n, title: t },
        PacketPayload::SymbolAndText(s, t) => KernelPacket::Message { symbol: s, tag: t },
        PacketPayload::Empty => if id == DISPLAYENDPKT {
            KernelPacket::DisplayEnd
        } else if id == DISPLAYPKT {
            KernelPacket::Display
        } else if id == INPUTPKT {
            KernelPacket::Input
        } else if id == INPUTSTRPKT {
            KernelPacket::InputString
        } else if id == RESUMEPKT {
            KernelPacket::Resume
        } else if id == SUSPENDPKT {
            KernelPacket::Suspend
        } else {
            KernelPacket::Unknown(id)
        },
    }
}

/// The name of the packet kind `id`.
pub open spec fn packet_name_of(id: i32) -> Seq<char> {
    if id == BEGINDLGPKT {
        "BeginDialogPacket"@
    } else if id == CALLPKT {
        "CallPacket"@
    } else if id == DISPLAYENDPKT {
        "DisplayEndPacket"@
    } else if id == DISPLAYPKT {
        "DisplayPacket"@
    } else if id == ENDDLGPKT {
        "EndDialogPacket"@
    } else if id == ENTEREXPRPKT {
        "EnterExpressionPacket"@
    } else if id == ENTERTEXTPKT {
        "EnterTextPacket"@
    } else if id == EVALUATEPKT {
        "EvaluatePacket"@
    } else if id == INPUTNAMEPKT {
        "InputNamePacket"@
    } else if id == INPUTPKT {
        "InputPacket"@
    } else if id == INPUTSTRPKT {
        "InputStringPacket"@
    } else if id == MENUPKT {
        "MenuPacket"@
    } else if id == MESSAGEPKT {
        "MessagePacket"@
    } else if id == OUTPUTNAMEPKT {
        "OutputNamePacket"@
    } else if id == RESUMEPKT {
        "ResumePacket"@
    } else if id == RETURNEXPRPKT {
        "ReturnExpressionPacket"@
    } else if id == RETURNPKT {
        "ReturnPacket"@
    } else if id == RETURNTEXTPKT {
        "ReturnTextPacket"@
    } else if id == SUSPENDPKT {
        "SuspendPacket"@
    } else if id == SYNTAXPKT {
        "SyntaxPacket"@
    } else if id == TEXTPKT {
        "TextPacket"@
    } else {
        "unknown packet"@
    }
}

/// The name of the packet kind `id`.
pub fn packet_name(id: i32) -> (r: &'static str)
    ensures
        r@ == packet_name_of(id),
{
    if id == BEGINDLGPKT {
        "BeginDialogPacket"
    } else if id == CALLPKT {
        "CallPacket"
    } else if id == DISPLAYENDPKT {
        "DisplayEndPacket"
    } else if id == DISPLAYPKT {
        "DisplayPacket"
    } else if id == ENDDLGPKT {
        "EndDialogPacket"
    } else if id == ENTEREXPRPKT {
        "EnterExpressionPacket"
    } else if id == ENTERTEXTPKT {
        "EnterTextPacket"
    } else if id == EVALUATEPKT {
        "EvaluatePacket"
    } else if id == INPUTNAMEPKT {
        "InputNamePacket"
    } else if id == INPUTPKT {
        "InputPacket"
    } else if id == INPUTSTRPKT {
        "InputStringPacket"
    } else if id == MENUPKT {
        "MenuPacket"
    } else if id == MESSAGEPKT {
        "MessagePacket"
    } else if id == OUTPUTNAMEPKT {
        "OutputNamePacket"
    } else if id == RESUMEPKT {
        "ResumePacket"
    } else if id == RETURNEXPRPKT {
        "ReturnExpressionPacket"
    } else if id == RETURNPKT {
        "ReturnPacket"
    } else if id == RETURNTEXTPKT {
        "ReturnTextPacket"
    } else if id == SUSPENDPKT {
        "SuspendPacket"
    } else if id == SYNTAXPKT {
        "SyntaxPacket"
    } else if id == TEXTPKT {
        "TextPacket"
    } else {
        "unknown packet"
    }
}

} // verus!

verus! {

/// Whether a packet ends an evaluation.
pub open spec fn is_terminal(p: PacketView) -> bool {
    match p {
        PacketView::Return(_) | PacketView::ReturnExpression(_) | PacketView::ReturnText(_)
        | PacketView::Syntax(_) => true,
        _ => false,
    }
}

/// Whether a packet ends an evaluation: a result or a syntax error.
pub fn packet_is_terminal(packet: &KernelPacket) -> (r: bool)
    ensures
        r == is_terminal(packet@),
{
    match packet {
        KernelPacket::Return(_) | KernelPacket::ReturnExpression(_) | KernelPacket::ReturnText(_)
        | KernelPacket::Syntax(_) => true,
        _ => false,
    }
}

/// The prompt to show when the kernel asks for input: the latest text that does not end
/// a line, or the latest input name, whichever came last; empty if there is none.
pub open spec fn prompt_before(ps: Seq<PacketView>) -> Seq<char>
    decreases ps.len(),
{
    if ps.len() == 0 {
        Seq::empty()
    } else {
        match ps.last() {
            PacketView::Text(t) => if !crate::text::ends_with_newline(t) {
                t
            } else {
                prompt_before(ps.drop_last())
            },
            PacketView::InputName(t) => t,
            _ => prompt_before(ps.drop_last()),
        }
    }
}

/// The prompt to show when the kernel asks for input after `packets`.
pub fn input_request_prompt(packets: &[KernelPacket]) -> (r: String)
    ensures
        r@ == prompt_before(packets_view(packets@)),
{
    let ghost all = packets_view(packets@);
    let mut k = packets.len();
    assert(all.take(k as int) =~= all);
    while k > 0
        invariant
            k <= packets@.len(),
            all == packets_view(packets@),
            prompt_before(all) == prompt_before(all.take(k as int)),
        decreases k,
    {
        let ghost here = all.take(k as int);
        assert(here.last() == packets@[k - 1]@);
        assert(here.drop_last() =~= all.take(k - 1));
        match &packets[k - 1] {
            KernelPacket::Text(t) => {
                if !crate::text::text_ends_with_newline(t.as_str()) {
                    return t.clone();
                }
            },
            KernelPacket::InputName(t) => {
                return t.clone();
            },
            _ => {},
        }
        k = k - 1;
    }
    String::new()
}

/// The latest input name among the packets.
pub open spec fn last_input_name_of(ps: Seq<PacketView>) -> Option<Seq<char>>
    decreases ps.len(),
{
    if ps.len() == 0 {
        None
    } else {
        match ps.last() {
            PacketView::InputName(t) => Some(t),
            _ => last_input_name_of(ps.drop_last()),
        }
    }
}

/// The latest input name among the packets, if any.
pub fn last_input_name(packets: &[KernelPacket]) -> (r: Option<String>)
    ensures
        r.deep_view() == last_input_name_of(packets_view(packets@)),
{
    let ghost all = packets_view(packets@);
    let mut k = packets.len();
    assert(all.take(k as int) =~= all);
    while k > 0
        invariant
            k <= packets@.len(),
            all == packets_view(packets@),
            last_input_name_of(all) == last_input_name_of(all.take(k as int)),
        decreases k,
    {
        let ghost here = all.take(k as int);
        assert(here.last() == packets@[k - 1]@);
        assert(here.drop_last() =~= all.take(k - 1));
        if let KernelPacket::InputName(t) = &packets[k - 1] {
            return Some(t.clone());
        }
        k = k - 1;
    }
    None
}

/// The value of an expression when it is a string.
pub fn expr_string_value(expr: &PacketExpr) -> (r: Option<String>)
    ensures
        r.deep_view() == expr@.string_value,
{
    match &expr.string_value {
        Some(v) => Some(v.clone()),
        None => None,
    }
}

/// The text of a result: a string result without its quotes, any other result as printed.
pub open spec fn text_result_of(p: PacketView) -> Option<Seq<char>> {
    match p {
        PacketView::Return(e) | PacketView::ReturnExpression(e) => match e.string_value {
            Some(v) => Some(v),
            None => Some(e.text),
        },
        PacketView::ReturnText(t) => Some(t),
        _ => None,
    }
}

/// The text of a result packet.
pub fn packet_text_result(packet: &KernelPacket) -> (r: Option<String>)
    ensures
        r.deep_view() == text_result_of(packet@),
{
    match packet {
        KernelPacket::Return(expr) | KernelPacket::ReturnExpression(expr) => {
            match expr_string_value(expr) {
                Some(v) => Some(v),
                None => Some(expr.text.clone()),
            }
        },
        KernelPacket::ReturnText(text) => Some(text.clone()),
        _ => None,
    }
}

/// The text of the latest result among the packets, or empty.
pub open spec fn last_text_result_of(ps: Seq<PacketView>) -> Seq<char>
    decreases ps.len(),
{
    if ps.len() == 0 {
        Seq::empty()
    } else {
        match text_result_of(ps.last()) {
            Some(t) => t,
            None => last_text_result_of(ps.drop_last()),
        }
    }
}

/// The text of the latest result among the packets, or empty when there is none.
pub fn last_text_result(packets: &[KernelPacket]) -> (r: String)
    ensures
        r@ == last_text_result_of(packets_view(packets@)),
{
    let ghost all = packets_view(packets@);
    let mut k = packets.len();
    assert(all.take(k as int) =~= all);
    while k > 0
        invariant
            k <= packets@.len(),
            all == packets_view(packets@),
            last_text_result_of(all) == last_text_result_of(all.take(k as int)),
        decreases k,
    {
        let ghost here = all.take(k as int);
        assert(here.last() == packets@[k - 1]@);
        assert(here.drop_last() =~= all.take(k - 1));
        if let Some(t) = packet_text_result(&packets[k - 1]) {
            return t;
        }
        k = k - 1;
    }
    String::new()
}

/// Whether a result text is not shown: an empty text, or `Null`.
pub open spec fn is_suppressed(text: Seq<char>) -> bool {
    text.len() == 0 || text == "Null"@
}

/// Whether a result text is not shown.
pub fn return_text_is_suppressed(text: &str) -> (r: bool)
    ensures
        r == is_suppressed(text@),
{
    let v = crate::text::chars_of(text);
    v.len() == 0 || crate::text::chars_eq_str(v.as_slice(), "Null")
}

/// The printed form of a returned expression, quotes of a string included.
pub fn return_expression_text(expr: &PacketExpr) -> (r: String)
    ensures
        r@ == expr@.text,
{
    expr.text.clone()
}

/// Whether packet `index` is a text that prompts for the input the next packet asks for.
pub open spec fn is_input_prompt(ps: Seq<PacketView>, index: int) -> bool {
    &&& 0 <= index
    &&& index + 1 < ps.len()
    &&& (ps[index + 1] is Input || ps[index + 1] is InputString)
    &&& ps[index] matches PacketView::Text(t) && !crate::text::ends_with_newline(t)
}

/// Whether packet `index` is a text that prompts for the input that the next packet asks for.
pub fn text_is_input_prompt(packets: &[KernelPacket], index: usize) -> (r: bool)
    ensures
        r == is_input_prompt(packets_view(packets@), index as int),
{
    if index >= packets.len() || packets.len() - index < 2 {
        return false;
    }
    let next_asks = match &packets[index + 1] {
        KernelPacket::Input | KernelPacket::InputString => true,
        _ => false,
    };
    if !next_asks {
        return false;
    }
    match &packets[index] {
        KernelPacket::Text(t) => !crate::text::text_ends_with_newline(t.as_str()),
        _ => false,
    }
}

} // verus!

verus! {

/// What the kernel asks the user for.
#[derive(Clone, Copy, Debug, PartialEq, Eq, Structural)]
pub enum KernelInputKind {
    Expression,
    String,
}

/// A request of the kernel for input, with the prompt to show.
#[derive(Clone, Debug)]
pub struct KernelInputRequest {
    pub kind: KernelInputKind,
    pub prompt: String,
}

/// What the session does after a packet was read during an evaluation.
#[derive(Clone, Debug)]
pub enum ReadAction {
    /// Finish the packet and read the next one.
    FinishAndContinue,
    /// Ask the user for input and send the answer; the answer finishes the packet.
    AnswerInput(KernelInputRequest),
    /// Finish the packet; the evaluation is complete.
    FinishAndReturn,
    /// The evaluation is complete; the packet is left as it is.
    Return,
}

/// The model of [`ReadAction`]: the request becomes its kind and prompt.
pub enum ReadActionView {
    FinishAndContinue,
    AnswerInput(KernelInputKind, Seq<char>),
    FinishAndReturn,
    Return,
}

impl View for ReadAction {
    type V = ReadActionView;

    open spec fn view(&self) -> ReadActionView {
        match self {
            ReadAction::FinishAndContinue => ReadActionView::FinishAndContinue,
            ReadAction::AnswerInput(r) => ReadActionView::AnswerInput(r.kind, r.prompt@),
            ReadAction::FinishAndReturn => ReadActionView::FinishAndReturn,
            ReadAction::Return => ReadActionView::Return,
        }
    }
}

/// The action after packet `p` arrives, the packets before it being `before`: an input request
/// is answered; when the next input name is awaited, it ends the evaluation; otherwise a
/// terminal packet does.
pub open spec fn read_action_for(before: Seq<PacketView>, p: PacketView, read_next_input_name: bool) -> ReadActionView {
    if p is Input {
        ReadActionView::AnswerInput(KernelInputKind::Expression, prompt_before(before))
    } else if p is InputString {
        ReadActionView::AnswerInput(KernelInputKind::String, prompt_before(before))
    } else if read_next_input_name && p is InputName {
        ReadActionView::FinishAndReturn
    } else if is_terminal(p) {
        if read_next_input_name {
            ReadActionView::FinishAndContinue
        } else {
            ReadActionView::Return
        }
    } else {
        ReadActionView::FinishAndContinue
    }
}

/// Records packet `packet` of an evaluation and decides what to do next.
pub fn on_packet(packets: &mut Vec<KernelPacket>, packet: KernelPacket, read_next_input_name: bool) -> (r: ReadAction)
    ensures
        packets_view(final(packets)@) == packets_view(old(packets)@).push(packet@),
        r@ == read_action_for(packets_view(old(packets)@), packet@, read_next_input_name),
{
    let terminal = packet_is_terminal(&packet);
    let next_prompt_after_result = read_next_input_name && match &packet {
        KernelPacket::InputName(_) => true,
        _ => false,
    };
    let input_request = match &packet {
        KernelPacket::Input => Some(
            KernelInputRequest {
                kind: KernelInputKind::Expression,
                prompt: input_request_prompt(packets.as_slice()),
            },
        ),
        KernelPacket::InputString => Some(
            KernelInputRequest {
                kind: KernelInputKind::String,
                prompt: input_request_prompt(packets.as_slice()),
            },
        ),
        _ => None,
    };
    let ghost before = packets@;
    packets.push(packet);
    assert(packets_view(packets@) =~= packets_view(before).push(packets@.last()@));
    if let Some(request) = input_request {
        return ReadAction::AnswerInput(request);
    }
    if next_prompt_after_result {
        return ReadAction::FinishAndReturn;
    }
    if terminal {
        if read_next_input_name {
            return ReadAction::FinishAndContinue;
        }
        return ReadAction::Return;
    }
    ReadAction::FinishAndContinue
}

/// What the session does with a packet while it waits for the kernel's first prompt.
#[derive(Clone, Debug)]
pub enum InitialAction {
    /// The first prompt arrived: finish the packet and keep the prompt.
    Prompt(String),
    /// The kernel asked for input before its first prompt: the message to fail with.
    Refuse(String),
    /// Finish the packet and read the next one.
    Skip,
}

/// The model of [`InitialAction`].
pub enum InitialActionView {
    Prompt(Seq<char>),
    Refuse(Seq<char>),
    Skip,
}

impl View for InitialAction {
    type V = InitialActionView;

    open spec fn view(&self) -> InitialActionView {
        match self {
            InitialAction::Prompt(p) => InitialActionView::Prompt(p@),
            InitialAction::Refuse(m) => InitialActionView::Refuse(m@),
            InitialAction::Skip => InitialActionView::Skip,
        }
    }
}

/// While the first prompt is awaited: an input name is the prompt, an input request is an error.
pub open spec fn initial_action_for(id: i32, p: PacketView) -> InitialActionView {
    match p {
        PacketView::InputName(prompt) => InitialActionView::Prompt(prompt),
        PacketView::Input | PacketView::InputString => InitialActionView::Refuse(
            "kernel sent "@ + packet_name_of(id) + " before the initial InputNamePacket"@,
        ),
        _ => InitialActionView::Skip,
    }
}

/// Decides what to do with packet `packet` (of kind `id`) while the first prompt is awaited.
pub fn initial_packet_action(id: i32, packet: KernelPacket) -> (r: InitialAction)
    ensures
        r@ == initial_action_for(id, packet@),
{
    match packet {
        KernelPacket::InputName(prompt) => InitialAction::Prompt(prompt),
        KernelPacket::Input | KernelPacket::InputString => {
            let mut m = String::from_str("kernel sent ");
            m.append(packet_name(id));
            m.append(" before the initial InputNamePacket");
            InitialAction::Refuse(m)
        },
        _ => InitialAction::Skip,
    }
}

/// The answer to an input request as it is sent: without line breaks at its end.
pub fn input_response_text(response: &str) -> (r: String)
    ensures
        r@ == crate::text::trim_line_end(response@),
{
    crate::text::trim_end_line_breaks(response)
}

/// The text the kernel evaluates for `input`: its `InputForm` as a string.
pub open spec fn input_form_of(input: Seq<char>) -> Seq<char> {
    "ToString["@ + input + ", InputForm]"@
}

/// Wraps `input` so that the kernel returns its result's `InputForm` as a string.
pub fn input_form_string_evaluation(input: &str) -> (r: String)
    ensures
        r@ == input_form_of(input@),
{
    let mut r = String::from_str("ToString[");
    r.append(input);
    r.append(", InputForm]");
    r
}

/// Whether the input asks the user for more input.
pub open spec fn asks_for_input(input: Seq<char>) -> bool {
    crate::text::contains_seq(input, "Input["@) || crate::text::contains_seq(input, "InputString["@)
}

/// The text sent to the kernel for the user's input: input that asks for more input is first
/// placed, as a string literal, into the evaluation template; then the result's `InputForm` is asked for.
pub open spec fn user_input_text(input: Seq<char>) -> Seq<char> {
    let body = if asks_for_input(input) {
        crate::text::replaced(
            crate::wl::WSTP_EVALUATE_USER_INPUT_WL@,
            crate::wl::USER_INPUT_PLACEHOLDER@,
            crate::wl::string_literal(input),
        )
    } else {
        input
    };
    input_form_of(body)
}

/// The text sent to the kernel for the user's input.
pub fn wstp_user_input_text(input: &str) -> (r: String)
    ensures
        r@ == user_input_text(input@),
{
    let chars = crate::text::chars_of(input);
    let a = crate::text::chars_of("Input[");
    let b = crate::text::chars_of("InputString[");
    let body = if crate::text::contains_chars(chars.as_slice(), a.as_slice())
        || crate::text::contains_chars(chars.as_slice(), b.as_slice()) {
        let template = crate::text::chars_of(crate::wl::WSTP_EVALUATE_USER_INPUT_WL);
        let placeholder = crate::text::chars_of(crate::wl::USER_INPUT_PLACEHOLDER);
        let literal = crate::wl::wolfram_string_literal(input);
        let literal_chars = crate::text::chars_of(literal.as_str());
        proof {
            reveal_strlit("WOLFRAMCLIINPUTPLACEHOLDER");
        }
        let replaced = crate::text::replace_all(
            template.as_slice(),
            placeholder.as_slice(),
            literal_chars.as_slice(),
        );
        crate::text::string_of(replaced.as_slice())
    } else {
        input.to_owned()
    };
    input_form_string_evaluation(body.as_str())
}

} // verus!

verus! {

/// `head[inner]`.
pub open spec fn bracketed(head: Seq<char>, inner: Seq<char>) -> Seq<char> {
    head + "["@ + inner + "]"@
}

fn bracket(head: &str, inner: &str) -> (r: String)
    ensures
        r@ == bracketed(head@, inner@),
{
    let mut r = String::from_str(head);
    r.append("[");
    r.append(inner);
    r.append("]");
    r
}

fn decimal_text(n: i32) -> (r: String)
    ensures
        r@ == crate::text::decimal(n as int),
{
    let mut r = String::new();
    crate::text::push_decimal_i64(&mut r, n as i64);
    r
}

fn pair_text(first: &str, second: &str) -> (r: String)
    ensures
        r@ == first@ + ", "@ + second@,
{
    let mut r = String::from_str(first);
    r.append(", ");
    r.append(second);
    r
}

/// A one-line description of a packet, for tracing.
pub open spec fn summary_of(p: PacketView) -> Seq<char> {
    match p {
        PacketView::BeginDialog(id) => bracketed("BeginDialogPacket"@, crate::text::decimal(id as int)),
        PacketView::Call { function, args } => bracketed(
            "CallPacket"@,
            crate::text::decimal(function as int) + ", "@ + args.text,
        ),
        PacketView::DisplayEnd => "DisplayEndPacket[]"@,
        PacketView::Display => "DisplayPacket[]"@,
        PacketView::EndDialog(id) => bracketed("EndDialogPacket"@, crate::text::decimal(id as int)),
        PacketView::EnterExpression(e) => bracketed("EnterExpressionPacket"@, e.text),
        PacketView::EnterText(t) => bracketed("EnterTextPacket"@, debug_escaped(t)),
        PacketView::Evaluate(e) => bracketed("EvaluatePacket"@, e.text),
        PacketView::InputName(t) => bracketed("InputNamePacket"@, debug_escaped(t)),
        PacketView::Input => "InputPacket[]"@,
        PacketView::InputString => "InputStringPacket[]"@,
        PacketView::Menu { id, title } => bracketed(
            "MenuPacket"@,
            crate::text::decimal(id as int) + ", "@ + debug_escaped(title),
        ),
        PacketView::Message { symbol, tag } => bracketed(
            "MessagePacket"@,
            symbol + ", "@ + debug_escaped(tag),
        ),
        PacketView::OutputName(t) => bracketed("OutputNamePacket"@, debug_escaped(t)),
        PacketView::Resume => "ResumePacket[]"@,
        PacketView::Return(e) => bracketed("ReturnPacket"@, e.text),
        PacketView::ReturnExpression(e) => bracketed("ReturnExpressionPacket"@, e.text),
        PacketView::ReturnText(t) => bracketed("ReturnTextPacket"@, debug_escaped(t)),
        PacketView::Suspend => "SuspendPacket[]"@,
        PacketView::Syntax(position) => bracketed("SyntaxPacket"@, crate::text::decimal(position as int)),
        PacketView::Text(t) => bracketed("TextPacket"@, debug_escaped(t)),
        PacketView::Unknown(id) => bracketed("UnknownPacket"@, crate::text::decimal(id as int)),
    }
}

/// A one-line description of a packet, for tracing.
pub fn packet_summary(packet: &KernelPacket) -> (r: String)
    ensures
        r@ == summary_of(packet@),
{
    match packet {
        KernelPacket::BeginDialog(id) => bracket("BeginDialogPacket", decimal_text(*id).as_str()),
        KernelPacket::Call { function, args } => bracket(
            "CallPacket",
            pair_text(decimal_text(*function).as_str(), args.text.as_str()).as_str(),
        ),
        KernelPacket::DisplayEnd => String::from_str("DisplayEndPacket[]"),
        KernelPacket::Display => String::from_str("DisplayPacket[]"),
        KernelPacket::EndDialog(id) => bracket("EndDialogPacket", decimal_text(*id).as_str()),
        KernelPacket::EnterExpression(e) => bracket("EnterExpressionPacket", e.text.as_str()),
        KernelPacket::EnterText(t) => bracket("EnterTextPacket", debug_text(t.as_str()).as_str()),
        KernelPacket::Evaluate(e) => bracket("EvaluatePacket", e.text.as_str()),
        KernelPacket::InputName(t) => bracket("InputNamePacket", debug_text(t.as_str()).as_str()),
        KernelPacket::Input => String::from_str("InputPacket[]"),
        KernelPacket::InputString => String::from_str("InputStringPacket[]"),
        KernelPacket::Menu { id, title } => bracket(
            "MenuPacket",
            pair_text(decimal_text(*id).as_str(), debug_text(title.as_str()).as_str()).as_str(),
        ),
        KernelPacket::Message { symbol, tag } => bracket(
            "MessagePacket",
            pair_text(symbol.as_str(), debug_text(tag.as_str()).as_str()).as_str(),
        ),
        KernelPacket::OutputName(t) => bracket("OutputNamePacket", debug_text(t.as_str()).as_str()),
        KernelPacket::Resume => String::from_str("ResumePacket[]"),
        KernelPacket::Return(e) => bracket("ReturnPacket", e.text.as_str()),
        KernelPacket::ReturnExpression(e) => bracket("ReturnExpressionPacket", e.text.as_str()),
        KernelPacket::ReturnText(t) => bracket("ReturnTextPacket", debug_text(t.as_str()).as_str()),
        KernelPacket::Suspend => String::from_str("SuspendPacket[]"),
        KernelPacket::Syntax(position) => bracket("SyntaxPacket", decimal_text(*position).as_str()),
        KernelPacket::Text(t) => bracket("TextPacket", debug_text(t.as_str()).as_str()),
        KernelPacket::Unknown(id) => bracket("UnknownPacket", decimal_text(*id).as_str()),
    }
}

/// The number of UTF-8 bytes of the text a packet carries, as shown.
pub open spec fn output_bytes_of(p: PacketView) -> nat {
    match p {
        PacketView::Text(t) | PacketView::ReturnText(t) | PacketView::InputName(t)
        | PacketView::OutputName(t) => vstd::utf8::encode_utf8(t).len(),
        PacketView::Return(e) | PacketView::ReturnExpression(e) => vstd::utf8::encode_utf8(
            e.text,
        ).len(),
        _ => 0,
    }
}

/// The number of UTF-8 bytes of text that the packets carry.
pub open spec fn total_output_bytes(ps: Seq<PacketView>) -> nat
    decreases ps.len(),
{
    if ps.len() == 0 {
        0
    } else {
        total_output_bytes(ps.drop_last()) + output_bytes_of(ps.last())
    }
}

/// The number of UTF-8 bytes of text that the packets carry, for tracing.
pub fn packet_output_bytes(packets: &[KernelPacket]) -> (r: usize)
    requires
        total_output_bytes(packets_view(packets@)) <= usize::MAX,
    ensures
        r == total_output_bytes(packets_view(packets@)),
{
    let ghost all = packets_view(packets@);
    let mut total: usize = 0;
    let n = packets.len();
    for k in 0..n
        invariant
            n == packets@.len(),
            all == packets_view(packets@),
            total_output_bytes(all) <= usize::MAX,
            total == total_output_bytes(all.take(k as int)),
    {
        assert(all.take(k + 1).drop_last() =~= all.take(k as int));
        assert(all.take(k + 1).last() == packets@[k as int]@);
        proof {
            lemma_total_output_bytes_prefix(all, k + 1);
        }
        let bytes = match &packets[k] {
            KernelPacket::Text(t) | KernelPacket::ReturnText(t) | KernelPacket::InputName(t)
            | KernelPacket::OutputName(t) => t.as_str().len(),
            KernelPacket::Return(e) | KernelPacket::ReturnExpression(e) => e.text.as_str().len(),
            _ => 0,
        };
        total = total + bytes;
    }
    assert(all.take(n as int) =~= all);
    total
}

/// A prefix carries no more bytes than the whole.
proof fn lemma_total_output_bytes_prefix(ps: Seq<PacketView>, k: int)
    requires
        0 <= k <= ps.len(),
    ensures
        total_output_bytes(ps.take(k)) <= total_output_bytes(ps),
    decreases ps.len() - k,
{
    if k < ps.len() {
        lemma_total_output_bytes_prefix(ps, k + 1);
        assert(ps.take(k + 1).drop_last() =~= ps.take(k));
    } else {
        assert(ps.take(k) =~= ps);
    }
}

} // verus!

verus! {

/// Something to show for an evaluation.
#[derive(Clone, Debug)]
pub enum RenderItem {
    /// Text printed as it is.
    Print(String),
    /// A result: its output name, if any, then its text (highlighted where a theme is used).
    Result { output_name: Option<String>, text: String },
}

/// The model of [`RenderItem`].
pub enum RenderItemView {
    Print(Seq<char>),
    Result { output_name: Option<Seq<char>>, text: Seq<char> },
}

impl View for RenderItem {
    type V = RenderItemView;

    open spec fn view(&self) -> RenderItemView {
        match self {
            RenderItem::Print(t) => RenderItemView::Print(t@),
            RenderItem::Result { output_name, text } => RenderItemView::Result {
                output_name: output_name.deep_view(),
                text: text@,
            },
        }
    }
}

/// The models of a sequence of render items.
pub open spec fn items_view(items: Seq<RenderItem>) -> Seq<RenderItemView> {
    items.map_values(|i: RenderItem| i@)
}

/// The state of rendering between two packets: what is shown so far, the output name that
/// the next result takes, and whether printed text left a line open.
pub struct RenderState {
    pub items: Seq<RenderItemView>,
    pub output_name: Option<Seq<char>>,
    pub open_line: bool,
}

/// A result with text `text`: an open line is closed first, and the pending output name is
/// used up whether or not the result is shown; `Null` and empty results are not shown.
pub open spec fn render_result(st: RenderState, text: Seq<char>) -> RenderState {
    let items = if st.open_line { st.items.push(RenderItemView::Print("\n"@)) } else { st.items };
    RenderState {
        items: if is_suppressed(text) {
            items
        } else {
            items.push(RenderItemView::Result { output_name: st.output_name, text })
        },
        output_name: None,
        open_line: false,
    }
}

/// `st` with one more line of text printed.
pub open spec fn render_line(st: RenderState, line: Seq<char>) -> RenderState {
    RenderState { items: st.items.push(RenderItemView::Print(line + "\n"@)), ..st }
}

/// Rendering packet `k` of `ps`.
pub open spec fn render_step(ps: Seq<PacketView>, k: int, st: RenderState) -> RenderState {
    match ps[k] {
        PacketView::Text(t) => if is_input_prompt(ps, k) {
            RenderState { open_line: false, ..st }
        } else {
            RenderState {
                items: st.items.push(RenderItemView::Print(t)),
                output_name: st.output_name,
                open_line: !crate::text::ends_with_newline(t),
            }
        },
        PacketView::OutputName(name) => RenderState { output_name: Some(name), ..st },
        PacketView::Return(e) | PacketView::ReturnExpression(e) => render_result(st, e.text),
        PacketView::ReturnText(t) => render_result(st, t),
        PacketView::Syntax(position) => render_line(
            st,
            "Syntax error at position "@ + crate::text::decimal(position as int),
        ),
        PacketView::BeginDialog(id) => render_line(st, bracketed("BeginDialogPacket"@, crate::text::decimal(id as int))),
        PacketView::EndDialog(id) => render_line(st, bracketed("EndDialogPacket"@, crate::text::decimal(id as int))),
        PacketView::Menu { id, title } => render_line(
            st,
            bracketed("MenuPacket"@, crate::text::decimal(id as int) + ", "@ + title),
        ),
        PacketView::Call { function, args } => render_line(
            st,
            bracketed("CallPacket"@, crate::text::decimal(function as int) + ", "@ + args.text),
        ),
        PacketView::Unknown(id) => render_line(st, "Unknown WSTP packet "@ + crate::text::decimal(id as int)),
        PacketView::EnterExpression(e) => render_line(st, bracketed("EnterExpressionPacket"@, e.text)),
        PacketView::EnterText(t) => render_line(st, bracketed("EnterTextPacket"@, t)),
        PacketView::Evaluate(e) => render_line(st, bracketed("EvaluatePacket"@, e.text)),
        _ => st,
    }
}

/// The rendering of the first `k` packets of `ps`.
pub open spec fn render_upto(ps: Seq<PacketView>, k: int) -> RenderState
    decreases k,
{
    if k <= 0 {
        RenderState { items: Seq::empty(), output_name: None, open_line: false }
    } else {
        render_step(ps, k - 1, render_upto(ps, k - 1))
    }
}

/// Whether no item shows a result that is not shown by design (empty or `Null`).
pub open spec fn results_shown(items: Seq<RenderItemView>) -> bool {
    forall|i: int|
        0 <= i < items.len() ==> (#[trigger] items[i] matches RenderItemView::Result { text, .. }
            ==> !is_suppressed(text))
}

fn with_newline(s: String) -> (r: String)
    ensures
        r@ == s@ + "\n"@,
{
    let mut r = s;
    r.append("\n");
    r
}

/// What to show for the packets of an evaluation, in order.
pub fn render_packets(packets: &[KernelPacket]) -> (r: Vec<RenderItem>)
    ensures
        items_view(r@) == render_upto(packets_view(packets@), packets@.len() as int).items,
        results_shown(items_view(r@)),
{
    let ghost ps = packets_view(packets@);
    let mut items: Vec<RenderItem> = Vec::new();
    let mut output_name: Option<String> = None;
    let mut open_line = false;
    let n = packets.len();
    assert(items_view(items@) =~= Seq::<RenderItemView>::empty());
    for index in 0..n
        invariant
            n == packets@.len(),
            ps == packets_view(packets@),
            items_view(items@) == render_upto(ps, index as int).items,
            output_name.deep_view() == render_upto(ps, index as int).output_name,
            open_line == render_upto(ps, index as int).open_line,
            results_shown(items_view(items@)),
    {
        assert(ps[index as int] == packets@[index as int]@);
        let ghost before = items@;
        match &packets[index] {
            KernelPacket::Text(text) => {
                if text_is_input_prompt(packets, index) {
                    open_line = false;
                } else {
                    items.push(RenderItem::Print(text.clone()));
                    open_line = !crate::text::text_ends_with_newline(text.as_str());
                }
            },
            KernelPacket::OutputName(name) => {
                output_name = Some(name.clone());
            },
            KernelPacket::Return(expr) | KernelPacket::ReturnExpression(expr) => {
                if open_line {
                    items.push(RenderItem::Print(String::from_str("\n")));
                    open_line = false;
                }
                let text = return_expression_text(expr);
                let name = output_name.take();
                if !return_text_is_suppressed(text.as_str()) {
                    items.push(RenderItem::Result { output_name: name, text });
                }
            },
            KernelPacket::ReturnText(text) => {
                if open_line {
                    items.push(RenderItem::Print(String::from_str("\n")));
                    open_line = false;
                }
                let name = output_name.take();
                if !return_text_is_suppressed(text.as_str()) {
                    items.push(RenderItem::Result { output_name: name, text: text.clone() });
                }
            },
            KernelPacket::Syntax(position) => {
                let mut line = String::from_str("Syntax error at position ");
                line.append(decimal_text(*position).as_str());
                items.push(RenderItem::Print(with_newline(line)));
            },
            KernelPacket::BeginDialog(id) => {
                let line = bracket("BeginDialogPacket", decimal_text(*id).as_str());
                items.push(RenderItem::Print(with_newline(line)));
            },
            KernelPacket::EndDialog(id) => {
                let line = bracket("EndDialogPacket", decimal_text(*id).as_str());
                items.push(RenderItem::Print(with_newline(line)));
            },
            KernelPacket::Menu { id, title } => {
                let line = bracket(
                    "MenuPacket",
                    pair_text(decimal_text(*id).as_str(), title.as_str()).as_str(),
                );
                items.push(RenderItem::Print(with_newline(line)));
            },
            KernelPacket::Call { function, args } => {
                let line = bracket(
                    "CallPacket",
                    pair_text(decimal_text(*function).as_str(), args.text.as_str()).as_str(),
                );
                items.push(RenderItem::Print(with_newline(line)));
            },
            KernelPacket::Unknown(id) => {
                let mut line = String::from_str("Unknown WSTP packet ");
                line.append(decimal_text(*id).as_str());
                items.push(RenderItem::Print(with_newline(line)));
            },
            KernelPacket::EnterExpression(expr) => {
                let line = bracket("EnterExpressionPacket", expr.text.as_str());
                items.push(RenderItem::Print(with_newline(line)));
            },
            KernelPacket::EnterText(text) => {
                let line = bracket("EnterTextPacket", text.as_str());
                items.push(RenderItem::Print(with_newline(line)));
            },
            KernelPacket::Evaluate(expr) => {
                let line = bracket("EvaluatePacket", expr.text.as_str());
                items.push(RenderItem::Print(with_newline(line)));
            },
            _ => {},
        }
        assert(items_view(items@) =~= render_step(ps, index as int, render_upto(ps, index as int)).items);
    }
    items
}

} // verus!

verus! {

/// `head[inner]` starts with `head[`.
proof fn lemma_bracketed_starts_with_head(head: Seq<char>, inner: Seq<char>)
    ensures
        crate::text::occurs_at(bracketed(head, inner), head + "["@, 0),
{
    reveal_strlit("[");
    reveal_strlit("]");
    assert(bracketed(head, inner).subrange(0, head.len() + 1int) =~= head + "["@);
}

/// A name that does not start with `u` is not the name given to unknown packets.
proof fn lemma_not_unknown_name(name: Seq<char>)
    requires
        name.len() > 0,
        name[0] != 'u',
    ensures
        name != "unknown packet"@,
{
    reveal_strlit("unknown packet");
    assert("unknown packet"@[0] == 'u');
}

/// The summary of a packet without parts, `head[]`, starts with `head[`.
proof fn lemma_empty_summary(head: Seq<char>, summary: Seq<char>)
    requires
        summary == head + "[]"@,
    ensures
        crate::text::occurs_at(summary, head + "["@, 0),
{
    reveal_strlit("[]");
    assert(summary =~= head + "[]"@);
    reveal_strlit("[");
    assert(summary.subrange(0, head.len() + 1int) =~= head + "["@);
}

/// Packet names and packets read from the link agree. A packet kind is named "unknown packet"
/// exactly when its parts read as an unknown packet, for which nothing is read after the head;
/// every other packet's summary starts with the kind's name and `[`. Input, input-string,
/// display, display-end, resume and suspend packets read nothing after the head.
pub proof fn law_packet_names_match_summaries(id: i32, payload: PacketPayload)
    requires
        payload_fits(payload, layout_of(id)),
    ensures
        (packet_name_of(id) == "unknown packet"@) <==> packet_of(id, payload) == PacketView::Unknown(
            id,
        ),
        packet_name_of(id) == "unknown packet"@ ==> layout_of(id) == PacketLayout::Empty,
        packet_name_of(id) != "unknown packet"@ ==> crate::text::occurs_at(
            summary_of(packet_of(id, payload)),
            packet_name_of(id) + "["@,
            0,
        ),
        id == INPUTPKT || id == INPUTSTRPKT || id == DISPLAYPKT || id == DISPLAYENDPKT || id
            == RESUMEPKT || id == SUSPENDPKT ==> layout_of(id) == PacketLayout::Empty,
{
    let p = packet_of(id, payload);
    let name = packet_name_of(id);
    if id == BEGINDLGPKT {
        reveal_strlit("BeginDialogPacket");
        lemma_not_unknown_name(name);
        lemma_bracketed_starts_with_head(name, crate::text::decimal(p->BeginDialog_0 as int));
    } else if id == CALLPKT {
        reveal_strlit("CallPacket");
        lemma_not_unknown_name(name);
        lemma_bracketed_starts_with_head(
            name,
            crate::text::decimal(p->function as int) + ", "@ + p->args.text,
        );
    } else if id == DISPLAYENDPKT {
        reveal_strlit("DisplayEndPacket");
        reveal_strlit("DisplayEndPacket[]");
        lemma_not_unknown_name(name);
        reveal_strlit("[]");
        assert(summary_of(p) =~= name + "[]"@);
        lemma_empty_summary(name, summary_of(p));
    } else if id == DISPLAYPKT {
        reveal_strlit("DisplayPacket");
        reveal_strlit("DisplayPacket[]");
        lemma_not_unknown_name(name);
        reveal_strlit("[]");
        assert(summary_of(p) =~= name + "[]"@);
        lemma_empty_summary(name, summary_of(p));
    } else if id == ENDDLGPKT {
        reveal_strlit("EndDialogPacket");
        lemma_not_unknown_name(name);
        lemma_bracketed_starts_with_head(name, crate::text::decimal(p->EndDialog_0 as int));
    } else if id == ENTEREXPRPKT {
        reveal_strlit("EnterExpressionPacket");
        lemma_not_unknown_name(name);
        lemma_bracketed_starts_with_head(name, p->EnterExpression_0.text);
    } else if id == ENTERTEXTPKT {
        reveal_strlit("EnterTextPacket");
        lemma_not_unknown_name(name);
        lemma_bracketed_starts_with_head(name, debug_escaped(p->EnterText_0));
    } else if id == EVALUATEPKT {
        reveal_strlit("EvaluatePacket");
        lemma_not_unknown_name(name);
        lemma_bracketed_starts_with_head(name, p->Evaluate_0.text);
    } else if id == INPUTNAMEPKT {
        reveal_strlit("InputNamePacket");
        lemma_not_unknown_name(name);
        lemma_bracketed_starts_with_head(name, debug_escaped(p->InputName_0));
    } else if id == INPUTPKT {
        reveal_strlit("InputPacket");
        reveal_strlit("InputPacket[]");
        lemma_not_unknown_name(name);
        reveal_strlit("[]");
        assert(summary_of(p) =~= name + "[]"@);
        lemma_empty_summary(name, summary_of(p));
    } else if id == INPUTSTRPKT {
        reveal_strlit("InputStringPacket");
        reveal_strlit("InputStringPacket[]");
        lemma_not_unknown_name(name);
        reveal_strlit("[]");
        assert(summary_of(p) =~= name + "[]"@);
        lemma_empty_summary(name, summary_of(p));
    } else if id == MENUPKT {
        reveal_strlit("MenuPacket");
        lemma_not_unknown_name(name);
        lemma_bracketed_starts_with_head(
            name,
            crate::text::decimal(p->id as int) + ", "@ + debug_escaped(p->title),
        );
    } else if id == MESSAGEPKT {
        reveal_strlit("MessagePacket");
        lemma_not_unknown_name(name);
        lemma_bracketed_starts_with_head(name, p->symbol + ", "@ + debug_escaped(p->tag));
    } else if id == OUTPUTNAMEPKT {
        reveal_strlit("OutputNamePacket");
        lemma_not_unknown_name(name);
        lemma_bracketed_starts_with_head(name, debug_escaped(p->OutputName_0));
    } else if id == RESUMEPKT {
        reveal_strlit("ResumePacket");
        reveal_strlit("ResumePacket[]");
        lemma_not_unknown_name(name);
        reveal_strlit("[]");
        assert(summary_of(p) =~= name + "[]"@);
        lemma_empty_summary(name, summary_of(p));
    } else if id == RETURNEXPRPKT {
        reveal_strlit("ReturnExpressionPacket");
        lemma_not_unknown_name(name);
        lemma_bracketed_starts_with_head(name, p->ReturnExpression_0.text);
    } else if id == RETURNPKT {
        reveal_strlit("ReturnPacket");
        lemma_not_unknown_name(name);
        lemma_bracketed_starts_with_head(name, p->Return_0.text);
    } else if id == RETURNTEXTPKT {
        reveal_strlit("ReturnTextPacket");
        lemma_not_unknown_name(name);
        lemma_bracketed_starts_with_head(name, debug_escaped(p->ReturnText_0));
    } else if id == SUSPENDPKT {
        reveal_strlit("SuspendPacket");
        reveal_strlit("SuspendPacket[]");
        lemma_not_unknown_name(name);
        reveal_strlit("[]");
        assert(summary_of(p) =~= name + "[]"@);
        lemma_empty_summary(name, summary_of(p));
    } else if id == SYNTAXPKT {
        reveal_strlit("SyntaxPacket");
        lemma_not_unknown_name(name);
        lemma_bracketed_starts_with_head(name, crate::text::decimal(p->Syntax_0 as int));
    } else if id == TEXTPKT {
        reveal_strlit("TextPacket");
        lemma_not_unknown_name(name);
        lemma_bracketed_starts_with_head(name, debug_escaped(p->Text_0));
    }
}

} // verus!

verus! {

/// An input request is answered in the kind its packet asks for, with the prompt shown before
/// it: `Input[..]` asks for an expression, `InputString[..]` for a string, whatever else
/// the session is waiting for. The two requests never ask for the same kind.
pub proof fn law_input_requests_follow_their_packet(before: Seq<PacketView>, read_next_input_name: bool)
    ensures
        read_action_for(before, PacketView::Input, read_next_input_name)
            == ReadActionView::AnswerInput(KernelInputKind::Expression, prompt_before(before)),
        read_action_for(before, PacketView::InputString, read_next_input_name)
            == ReadActionView::AnswerInput(KernelInputKind::String, prompt_before(before)),
        read_action_for(before, PacketView::Input, read_next_input_name) != read_action_for(
            before,
            PacketView::InputString,
            read_next_input_name,
        ),
{
}

/// The text of a result packet, if `p` is one.
pub open spec fn result_text(p: PacketView) -> Option<Seq<char>> {
    match p {
        PacketView::Return(e) => Some(e.text),
        PacketView::ReturnExpression(e) => Some(e.text),
        PacketView::ReturnText(t) => Some(t),
        _ => None,
    }
}

/// The text of the latest output name among the packets before position `k`, counting only
/// those after the last result before `k`.
pub open spec fn latest_output_name(ps: Seq<PacketView>, k: int) -> Option<Seq<char>>
    decreases k,
{
    if k <= 0 {
        None
    } else if let PacketView::OutputName(name) = ps[k - 1] {
        Some(name)
    } else if result_text(ps[k - 1]) is Some {
        None
    } else {
        latest_output_name(ps, k - 1)
    }
}

/// While rendering, the output name waiting for the next result is the latest one received
/// since the previous result.
proof fn lemma_render_keeps_latest_output_name(ps: Seq<PacketView>, k: int)
    requires
        0 <= k <= ps.len(),
    ensures
        render_upto(ps, k).output_name == latest_output_name(ps, k),
    decreases k,
{
    if k > 0 {
        lemma_render_keeps_latest_output_name(ps, k - 1);
    }
}

/// A result that is shown carries the latest output name received since the previous result
/// (none if there was none), and its text: it is the last item shown after its packet.
pub proof fn law_results_carry_their_output_name(ps: Seq<PacketView>, k: int)
    requires
        0 <= k < ps.len(),
        (result_text(ps[k]) is Some),
        !is_suppressed(result_text(ps[k])->0),
    ensures
        render_upto(ps, k + 1).items.len() > 0,
        render_upto(ps, k + 1).items.last() == (RenderItemView::Result {
            output_name: latest_output_name(ps, k),
            text: result_text(ps[k])->0,
        }),
{
    lemma_render_keeps_latest_output_name(ps, k);
}

} // verus!
