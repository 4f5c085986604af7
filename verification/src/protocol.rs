//! The protocol itself: the message model, the line grammar and the
//! serializer. Nothing here knows of any particular message.

use vstd::prelude::*;
use crate::decimal::{
    all_digits, char_is_digit, decimal_digits, decimal_value, is_digit, parse_digits,
    push_decimal,
};
use crate::text::{clone_strings, from_chars, push_str_chars, string_of_range, to_chars};
use crate::utils::is_escape_letter;

verus! {

/// The kind of a message.
#[derive(Debug, PartialEq, Eq, Copy, Clone, Structural)]
pub enum MessageKind {
    /// Requests (`?`) are always acknowledged by a reply.
    Request,
    /// Replies (`!`) answer a request.
    Reply,
    /// Informs (`#`) may be sent at any time and get no reply.
    Inform,
}

/// A raw message: its arguments are the wire tokens, still escaped.
#[derive(Debug, PartialEq, Eq, Clone)]
pub struct Message {
    pub(crate) kind: MessageKind,
    pub(crate) name: String,
    pub(crate) id: Option<u32>,
    pub(crate) arguments: Vec<String>,
}

/// What a message holds, as mathematical values.
pub struct MessageView {
    pub kind: MessageKind,
    pub name: Seq<char>,
    pub id: Option<u32>,
    pub arguments: Seq<Seq<char>>,
}

impl View for Message {
    type V = MessageView;

    closed spec fn view(&self) -> MessageView {
        MessageView {
            kind: self.kind,
            name: self.name@,
            id: self.id,
            arguments: self.arguments.deep_view(),
        }
    }
}

/// The errors of this crate.
#[derive(Debug, PartialEq, Eq, Clone)]
pub enum KatcpError {
    /// The text does not follow the grammar; the field holds the input that
    /// was left when parsing stopped.
    ParseError(String),
    /// An argument is there but does not decode.
    BadArgument,
    /// The message has fewer arguments than its shape needs.
    MissingArgument,
    /// The message is well formed but is not the one that was asked for.
    IncorrectType,
    /// Another failure, described in words.
    Message(String),
    /// A failure outside the kinds above.
    Unknown,
}

pub type MessageResult = Result<Message, KatcpError>;

/// An ASCII letter.
pub open spec fn is_alpha(c: char) -> bool {
    ('a' <= c && c <= 'z') || ('A' <= c && c <= 'Z')
}

/// A character that may follow the first letter of a name.
pub open spec fn is_name_char(c: char) -> bool {
    is_alpha(c) || is_digit(c) || c == '-'
}

/// A space or a tab.
pub open spec fn is_space(c: char) -> bool {
    c == ' ' || c == '\t'
}

/// A line terminator.
pub open spec fn is_eol(c: char) -> bool {
    c == '\n' || c == '\r'
}

/// A character that stands for itself in an argument.
pub open spec fn is_plain(c: char) -> bool {
    c != '\\' && c != ' ' && c != '\0' && c != '\n' && c != '\r' && c != '\t'
}

/// A character that may follow a backslash in an argument.
pub open spec fn is_escapable(c: char) -> bool {
    c == '\\' || is_escape_letter(c)
}

/// The kind that a sigil stands for.
pub open spec fn kind_of_sigil(c: char) -> Option<MessageKind> {
    if c == '?' {
        Some(MessageKind::Request)
    } else if c == '!' {
        Some(MessageKind::Reply)
    } else if c == '#' {
        Some(MessageKind::Inform)
    } else {
        None
    }
}

/// The sigil of a kind.
pub open spec fn sigil(kind: MessageKind) -> char {
    match kind {
        MessageKind::Request => '?',
        MessageKind::Reply => '!',
        MessageKind::Inform => '#',
    }
}

/// Where the longest run of name characters that starts at `i` ends.
pub open spec fn name_run_end(s: Seq<char>, i: int) -> int
    decreases s.len() - i,
{
    if 0 <= i < s.len() && is_name_char(s[i]) {
        name_run_end(s, i + 1)
    } else {
        i
    }
}

/// Where the longest run of spaces and tabs that starts at `i` ends.
pub open spec fn space_run_end(s: Seq<char>, i: int) -> int
    decreases s.len() - i,
{
    if 0 <= i < s.len() && is_space(s[i]) {
        space_run_end(s, i + 1)
    } else {
        i
    }
}

/// Where the longest run of decimal digits that starts at `i` ends.
pub open spec fn digit_run_end(s: Seq<char>, i: int) -> int
    decreases s.len() - i,
{
    if 0 <= i < s.len() && is_digit(s[i]) {
        digit_run_end(s, i + 1)
    } else {
        i
    }
}

/// Where the longest run of escape sequences and plain characters that
/// starts at `i` ends.
pub open spec fn argument_end(s: Seq<char>, i: int) -> int
    decreases s.len() - i,
{
    if 0 <= i && i + 1 < s.len() && s[i] == '\\' && is_escapable(s[i + 1]) {
        argument_end(s, i + 2)
    } else if 0 <= i < s.len() && is_plain(s[i]) {
        argument_end(s, i + 1)
    } else {
        i
    }
}

/// Where the name that starts at `i` ends, if a name starts there: a letter,
/// then letters, digits and hyphens.
pub open spec fn name_end(s: Seq<char>, i: int) -> Option<int> {
    if 0 <= i < s.len() && is_alpha(s[i]) {
        Some(name_run_end(s, i + 1))
    } else {
        None
    }
}

/// The message id that starts at `i`, with the place where it ends: `[`, a
/// digit that is not zero, more digits, `]`, the number fitting 32 bits.
pub open spec fn id_at(s: Seq<char>, i: int) -> Option<(u32, int)> {
    if 0 <= i && i + 1 < s.len() && s[i] == '[' && is_digit(s[i + 1]) && s[i + 1] != '0' {
        let e = digit_run_end(s, i + 1);
        if e < s.len() && s[e] == ']' && decimal_value(s.subrange(i + 1, e)) <= u32::MAX {
            Some((decimal_value(s.subrange(i + 1, e)) as u32, e + 1))
        } else {
            None
        }
    } else {
        None
    }
}

/// The arguments that follow position `i`, each after at least one space or
/// tab, and the place where the last one ends.
pub open spec fn arguments_from(s: Seq<char>, i: int) -> (Seq<Seq<char>>, int)
    decreases s.len() - i,
{
    let w = space_run_end(s, i);
    let e = argument_end(s, w);
    if 0 <= i < w && w < e && e <= s.len() {
        let (rest, end) = arguments_from(s, e);
        (seq![s.subrange(w, e)] + rest, end)
    } else {
        (Seq::empty(), i)
    }
}

/// The whole of `s` is a name.
pub open spec fn is_name(s: Seq<char>) -> bool {
    name_end(s, 0) == Some(s.len() as int)
}

/// The whole of `s` is an argument.
pub open spec fn is_argument(s: Seq<char>) -> bool {
    s.len() > 0 && argument_end(s, 0) == s.len()
}

/// What parsing makes of a line: the message and the input behind its
/// terminator, or the input that was left where the grammar was broken.
pub open spec fn parse_spec(s: Seq<char>) -> Result<(MessageView, Seq<char>), Seq<char>> {
    if s.len() == 0 || kind_of_sigil(s[0]) is None {
        Err(s)
    } else {
        match name_end(s, 1) {
            None => Err(s.skip(1)),
            Some(n) => {
                let (id, p) = match id_at(s, n) {
                    Some((v, e)) => (Some(v), e),
                    None => (None, n),
                };
                let (arguments, q) = arguments_from(s, p);
                let r = space_run_end(s, q);
                let m = MessageView {
                    kind: kind_of_sigil(s[0])->Some_0,
                    name: s.subrange(1, n),
                    id,
                    arguments,
                };
                if r == s.len() {
                    Ok((m, Seq::empty()))
                } else if 0 <= r < s.len() && is_eol(s[r]) {
                    Ok((m, s.skip(r + 1)))
                } else {
                    Err(s.skip(r))
                }
            },
        }
    }
}

/// The text of a message id: empty where there is none.
pub open spec fn id_text(id: Option<u32>) -> Seq<char> {
    match id {
        Some(n) => seq!['['] + decimal_digits(n as nat) + seq![']'],
        None => Seq::empty(),
    }
}

/// The text of the arguments: each after one space.
pub open spec fn arguments_text(arguments: Seq<Seq<char>>) -> Seq<char>
    decreases arguments.len(),
{
    if arguments.len() == 0 {
        Seq::empty()
    } else {
        seq![' '] + arguments[0] + arguments_text(arguments.skip(1))
    }
}

/// The line that a message is written as.
pub open spec fn serialize_spec(m: MessageView) -> Seq<char> {
    seq![sigil(m.kind)] + m.name + id_text(m.id) + arguments_text(m.arguments) + seq!['\n']
}

/// The runs never end before they start nor behind the input.
pub proof fn lemma_run_bounds(s: Seq<char>, i: int)
    requires
        0 <= i <= s.len(),
    ensures
        i <= name_run_end(s, i) <= s.len(),
        i <= space_run_end(s, i) <= s.len(),
        i <= digit_run_end(s, i) <= s.len(),
        i <= argument_end(s, i) <= s.len(),
    decreases s.len() - i,
{
    if i < s.len() {
        lemma_run_bounds(s, i + 1);
        if i + 1 < s.len() {
            lemma_run_bounds(s, i + 2);
        }
    }
}

fn is_alpha_char(c: char) -> (b: bool)
    ensures
        b == is_alpha(c),
{
    ('a' <= c && c <= 'z') || ('A' <= c && c <= 'Z')
}

fn is_name_character(c: char) -> (b: bool)
    ensures
        b == is_name_char(c),
{
    is_alpha_char(c) || char_is_digit(c) || c == '-'
}

fn is_plain_char(c: char) -> (b: bool)
    ensures
        b == is_plain(c),
{
    c != '\\' && c != ' ' && c != '\0' && c != '\n' && c != '\r' && c != '\t'
}

fn is_escapable_char(c: char) -> (b: bool)
    ensures
        b == is_escapable(c),
{
    c == '\\' || c == '_' || c == '0' || c == 'n' || c == 'r' || c == 'e' || c == 't' || c == '@'
}

fn scan_name_run(v: &Vec<char>, from: usize) -> (end: usize)
    requires
        from <= v.len(),
    ensures
        end == name_run_end(v@, from as int),
        from <= end <= v.len(),
{
    let mut i = from;
    while i < v.len() && is_name_character(v[i])
        invariant
            from <= i <= v.len(),
            name_run_end(v@, i as int) == name_run_end(v@, from as int),
        decreases v.len() - i,
    {
        i += 1;
    }
    i
}

fn scan_space_run(v: &Vec<char>, from: usize) -> (end: usize)
    requires
        from <= v.len(),
    ensures
        end == space_run_end(v@, from as int),
        from <= end <= v.len(),
{
    let mut i = from;
    while i < v.len() && (v[i] == ' ' || v[i] == '\t')
        invariant
            from <= i <= v.len(),
            space_run_end(v@, i as int) == space_run_end(v@, from as int),
        decreases v.len() - i,
    {
        i += 1;
    }
    i
}

pub fn scan_digit_run(v: &Vec<char>, from: usize) -> (end: usize)
    requires
        from <= v.len(),
    ensures
        end == digit_run_end(v@, from as int),
        from <= end <= v.len(),
        all_digits(v@.subrange(from as int, end as int)),
{
    let mut i = from;
    while i < v.len() && char_is_digit(v[i])
        invariant
            from <= i <= v.len(),
            digit_run_end(v@, i as int) == digit_run_end(v@, from as int),
            all_digits(v@.subrange(from as int, i as int)),
        decreases v.len() - i,
    {
        assert forall|k: int| 0 <= k < i + 1 - from implies is_digit(
            #[trigger] v@.subrange(from as int, i + 1)[k],
        ) by {
            if k < i - from {
                assert(v@.subrange(from as int, i as int)[k] == v@[from + k]);
            }
        }
        i += 1;
    }
    i
}

fn scan_argument(v: &Vec<char>, from: usize) -> (end: usize)
    requires
        from <= v.len(),
    ensures
        end == argument_end(v@, from as int),
        from <= end <= v.len(),
{
    let mut i = from;
    loop
        invariant
            from <= i <= v.len(),
            argument_end(v@, i as int) == argument_end(v@, from as int),
        decreases v.len() - i,
    {
        if i < v.len() && v[i] == '\\' && i + 1 < v.len() && is_escapable_char(v[i + 1]) {
            i += 2;
        } else if i < v.len() && is_plain_char(v[i]) {
            i += 1;
        } else {
            return i;
        }
    }
}

impl MessageView {
    /// The name and every argument follow the grammar.
    pub open spec fn grammatical(self) -> bool {
        &&& is_name(self.name)
        &&& forall|i: int| 0 <= i < self.arguments.len() ==> is_argument(#[trigger] self.arguments[i])
    }

    /// The message follows the grammar in full: name, arguments, and an id
    /// that is not zero.
    pub open spec fn well_formed(self) -> bool {
        self.grammatical() && self.id != Some(0u32)
    }
}

/// What is left of a name where it stops being one; `None` for a name.
pub open spec fn name_residual(s: Seq<char>) -> Option<Seq<char>> {
    if is_name(s) {
        None
    } else {
        match name_end(s, 0) {
            Some(e) => Some(s.skip(e)),
            None => Some(s),
        }
    }
}

/// What is left of an argument where it stops being one; `None` for an
/// argument.
pub open spec fn argument_residual(s: Seq<char>) -> Option<Seq<char>> {
    if is_argument(s) {
        None
    } else {
        Some(s.skip(argument_end(s, 0)))
    }
}

/// The residual of the first argument that is none; `None` where all are.
pub open spec fn arguments_residual(arguments: Seq<Seq<char>>) -> Option<Seq<char>>
    decreases arguments.len(),
{
    if arguments.len() == 0 {
        None
    } else {
        match argument_residual(arguments[0]) {
            Some(r) => Some(r),
            None => arguments_residual(arguments.skip(1)),
        }
    }
}

/// What validation reports: the residual of the name, else that of the first
/// bad argument, else nothing.
pub open spec fn validation_residual(name: Seq<char>, arguments: Seq<Seq<char>>) -> Option<
    Seq<char>,
> {
    match name_residual(name) {
        Some(r) => Some(r),
        None => arguments_residual(arguments),
    }
}

/// Validation reports nothing exactly for the arguments that all follow the
/// grammar.
pub proof fn lemma_arguments_residual(arguments: Seq<Seq<char>>)
    ensures
        arguments_residual(arguments) is None <==> forall|i: int|
            0 <= i < arguments.len() ==> is_argument(#[trigger] arguments[i]),
    decreases arguments.len(),
{
    if arguments.len() > 0 {
        let tail = arguments.skip(1);
        lemma_arguments_residual(tail);
        if arguments_residual(arguments) is None {
            assert forall|i: int| 0 <= i < arguments.len() implies is_argument(
                #[trigger] arguments[i],
            ) by {
                if i > 0 {
                    assert(tail[i - 1] == arguments[i]);
                }
            }
        }
        if forall|i: int| 0 <= i < arguments.len() ==> is_argument(#[trigger] arguments[i]) {
            assert(is_argument(arguments[0]));
            assert forall|i: int| 0 <= i < tail.len() implies is_argument(#[trigger] tail[i]) by {
                assert(tail[i] == arguments[i + 1]);
            }
        }
    }
}

impl Message {
    /// Builds a message from its parts without validating them. The line it
    /// is written as follows the grammar only if the parts do.
    pub fn new_unchecked(
        kind: MessageKind,
        name: &str,
        id: Option<u32>,
        arguments: Vec<String>,
    ) -> (m: Message)
        ensures
            m@ == (MessageView {
                kind,
                name: name@,
                id,
                arguments: arguments.deep_view(),
            }),
    {
        Message { kind, name: name.to_owned(), id, arguments }
    }

    /// Builds a message after validating the name and each argument against
    /// the grammar. The name is checked first, then the arguments in order;
    /// the error holds what is left of the first of them that breaks the
    /// grammar, from the place where it does. The id is taken as it is.
    pub fn new(kind: MessageKind, name: &str, id: Option<u32>, arguments: Vec<&str>) -> (r:
        MessageResult)
        ensures
            match r {
                Ok(m) => {
                    &&& validation_residual(name@, arguments.deep_view()) is None
                    &&& m@ == (MessageView {
                        kind,
                        name: name@,
                        id,
                        arguments: arguments.deep_view(),
                    })
                    &&& m@.grammatical()
                },
                Err(e) => e matches KatcpError::ParseError(res) && validation_residual(
                    name@,
                    arguments.deep_view(),
                ) == Some(res@),
            },
    {
        let ghost all = arguments.deep_view();
        let n = to_chars(name);
        let consumed = if n.len() > 0 && is_alpha_char(n[0]) {
            scan_name_run(&n, 1)
        } else {
            0
        };
        if n.len() == 0 || consumed < n.len() {
            return Err(KatcpError::ParseError(string_of_range(&n, consumed, n.len())));
        }
        let mut owned: Vec<String> = Vec::new();
        let mut i: usize = 0;
        assert(all.skip(0) =~= all);
        while i < arguments.len()
            invariant
                i <= arguments.len(),
                all == arguments.deep_view(),
                name_residual(name@) is None,
                arguments_residual(all.skip(i as int)) == arguments_residual(all),
                owned.len() == i,
                forall|k: int| 0 <= k < i ==> owned@[k]@ == all[k],
            decreases arguments.len() - i,
        {
            let a = to_chars(arguments[i]);
            assert(a@ == all[i as int]);
            assert(all.skip(i as int)[0] == all[i as int]);
            assert(all.skip(i as int).skip(1) =~= all.skip(i + 1));
            let end = scan_argument(&a, 0);
            if a.len() == 0 || end < a.len() {
                return Err(KatcpError::ParseError(string_of_range(&a, end, a.len())));
            }
            owned.push(from_chars(&a));
            i += 1;
        }
        assert(all.skip(all.len() as int) =~= Seq::<Seq<char>>::empty());
        assert(owned.deep_view() =~= all);
        proof {
            lemma_arguments_residual(all);
        }
        Ok(Message { kind, name: name.to_owned(), id, arguments: owned })
    }

    /// The name of the message, borrowed.
    pub fn name_ref(&self) -> (n: &str)
        ensures
            n@ == self@.name,
    {
        self.name.as_str()
    }

    /// The arguments of the message, borrowed.
    pub fn arguments_ref(&self) -> (a: &Vec<String>)
        ensures
            a.deep_view() == self@.arguments,
    {
        &self.arguments
    }

    /// The kind of the message.
    pub fn kind(&self) -> (k: MessageKind)
        ensures
            k == self@.kind,
    {
        self.kind
    }

    /// The name of the message.
    pub fn name(&self) -> (n: String)
        ensures
            n@ == self@.name,
    {
        self.name.clone()
    }

    /// The id of the message.
    pub fn id(&self) -> (i: Option<u32>)
        ensures
            i == self@.id,
    {
        self.id
    }

    /// The arguments of the message, still escaped.
    pub fn arguments(&self) -> (a: Vec<String>)
        ensures
            a.deep_view() == self@.arguments,
    {
        clone_strings(&self.arguments)
    }

    /// The line that the message is written as: the sigil, the name, the id
    /// in brackets, each argument after one space, and a newline.
    pub fn to_string(&self) -> (line: String)
        ensures
            line@ == serialize_spec(self@),
    {
        let mut out: Vec<char> = Vec::new();
        out.push(
            match self.kind {
                MessageKind::Request => '?',
                MessageKind::Reply => '!',
                MessageKind::Inform => '#',
            },
        );
        push_str_chars(&mut out, self.name.as_str());
        match self.id {
            Some(n) => {
                out.push('[');
                push_decimal(&mut out, n as u64);
                out.push(']');
            },
            None => {},
        }
        let ghost head = seq![sigil(self@.kind)] + self@.name + id_text(self@.id);
        let ghost all = self@.arguments;
        assert(out@ =~= head);
        let mut i: usize = 0;
        assert(all.skip(0) =~= all);
        while i < self.arguments.len()
            invariant
                i <= self.arguments.len(),
                all == self.arguments.deep_view(),
                out@ + arguments_text(all.skip(i as int)) == head + arguments_text(all),
            decreases self.arguments.len() - i,
        {
            let ghost before = out@;
            let ghost rest = all.skip(i as int);
            out.push(' ');
            push_str_chars(&mut out, self.arguments[i].as_str());
            assert(rest[0] == self.arguments@[i as int]@);
            assert(rest.skip(1) =~= all.skip(i + 1));
            i += 1;
            assert(out@ + arguments_text(all.skip(i as int)) =~= before + arguments_text(rest));
        }
        assert(all.skip(all.len() as int) =~= Seq::<Seq<char>>::empty());
        out.push('\n');
        assert(out@ =~= serialize_spec(self@));
        from_chars(&out)
    }

    /// Parses one line into a message; what follows the terminator is
    /// ignored.
    pub fn from_str(s: &str) -> (r: MessageResult)
        ensures
            match r {
                Ok(m) => parse_spec(s@) is Ok && m@ == parse_spec(s@)->Ok_0.0,
                Err(e) => e matches KatcpError::ParseError(res) && parse_spec(s@) == Err::<
                    (MessageView, Seq<char>),
                    _,
                >(res@),
            },
    {
        match message(s) {
            Ok((_, m)) => Ok(m),
            Err(e) => Err(e),
        }
    }
}

impl core::str::FromStr for Message {
    type Err = KatcpError;

    /// Parses one line into a message, as the method of that name on
    /// `Message` does.
    fn from_str(s: &str) -> (r: Result<Self, KatcpError>)
        ensures
            match r {
                Ok(m) => parse_spec(s@) is Ok && m@ == parse_spec(s@)->Ok_0.0,
                Err(e) => e matches KatcpError::ParseError(res) && parse_spec(s@) == Err::<
                    (MessageView, Seq<char>),
                    _,
                >(res@),
            },
    {
        Message::from_str(s)
    }
}

impl TryFrom<&str> for Message {
    type Error = KatcpError;

    /// Parses one line into a message, as `Message::from_str` does.
    fn try_from(s: &str) -> (r: Result<Self, KatcpError>)
        ensures
            match r {
                Ok(m) => parse_spec(s@) is Ok && m@ == parse_spec(s@)->Ok_0.0,
                Err(e) => e matches KatcpError::ParseError(res) && parse_spec(s@) == Err::<
                    (MessageView, Seq<char>),
                    _,
                >(res@),
            },
    {
        Message::from_str(s)
    }
}

impl vstd::std_specs::convert::TryFromSpecImpl<&str> for Message {
    open spec fn obeys_try_from_spec() -> bool {
        false
    }

    open spec fn try_from_spec(s: &str) -> Result<Self, KatcpError> {
        arbitrary()
    }
}

/// Parses the message at the start of `input`. Returns the input behind the
/// line terminator together with the message, or a `ParseError` that holds
/// the input left at the place where the grammar was broken.
pub fn message(input: &str) -> (r: Result<(&str, Message), KatcpError>)
    ensures
        match r {
            Ok((rest, m)) => parse_spec(input@) == Ok::<_, Seq<char>>((m@, rest@)),
            Err(e) => e matches KatcpError::ParseError(res) && parse_spec(input@) == Err::<
                (MessageView, Seq<char>),
                _,
            >(res@),
        },
{
    let v = to_chars(input);
    let len = v.len();
    if len == 0 {
        assert(v@.skip(0) =~= input@);
        return Err(KatcpError::ParseError(string_of_range(&v, 0, 0)));
    }
    let kind = if v[0] == '?' {
        MessageKind::Request
    } else if v[0] == '!' {
        MessageKind::Reply
    } else if v[0] == '#' {
        MessageKind::Inform
    } else {
        assert(v@.skip(0) =~= v@);
        return Err(KatcpError::ParseError(string_of_range(&v, 0, len)));
    };
    if !(1 < len && is_alpha_char(v[1])) {
        return Err(KatcpError::ParseError(string_of_range(&v, 1, len)));
    }
    let n = scan_name_run(&v, 2);
    let name = string_of_range(&v, 1, n);
    let mut id: Option<u32> = None;
    let mut p = n;
    if n < len - 1 && v[n] == '[' && char_is_digit(v[n + 1]) && v[n + 1] != '0' {
        let e = scan_digit_run(&v, n + 1);
        if e < len && v[e] == ']' {
            match parse_digits(&v, n + 1, e, 0xffff_ffff) {
                Some(value) => {
                    id = Some(value as u32);
                    p = e + 1;
                },
                None => {},
            }
        }
    }
    let ghost start = p;
    let mut arguments: Vec<String> = Vec::new();
    loop
        invariant
            start <= p <= len,
            len == v.len(),
            arguments_from(v@, start as int) == (
                arguments.deep_view() + arguments_from(v@, p as int).0,
                arguments_from(v@, p as int).1,
            ),
        ensures
            start <= p <= len,
            arguments_from(v@, start as int) == (arguments.deep_view(), p as int),
        decreases len - p,
    {
        let w = scan_space_run(&v, p);
        let e = scan_argument(&v, w);
        if p < w && w < e {
            let ghost before = arguments.deep_view();
            let token = string_of_range(&v, w, e);
            arguments.push(token);
            assert(arguments.deep_view() =~= before.push(v@.subrange(w as int, e as int)));
            assert(before + (seq![v@.subrange(w as int, e as int)] + arguments_from(
                v@,
                e as int,
            ).0) =~= arguments.deep_view() + arguments_from(v@, e as int).0);
            p = e;
        } else {
            assert(arguments.deep_view() + Seq::<Seq<char>>::empty() =~= arguments.deep_view());
            break;
        }
    }
    let r = scan_space_run(&v, p);
    let m = Message { kind, name, id, arguments };
    if r == len {
        assert(input@.subrange(len as int, len as int) =~= Seq::<char>::empty());
        Ok((input.substring_char(len, len), m))
    } else if v[r] == '\n' || v[r] == '\r' {
        assert(input@.subrange(r + 1, len as int) =~= input@.skip(r + 1));
        Ok((input.substring_char(r + 1, len), m))
    } else {
        Err(KatcpError::ParseError(string_of_range(&v, r, len)))
    }
}

/// Every character of a run of name characters is one.
proof fn lemma_name_run_chars(s: Seq<char>, i: int)
    requires
        0 <= i <= s.len(),
    ensures
        forall|j: int| i <= j < name_run_end(s, i) ==> is_name_char(#[trigger] s[j]),
    decreases s.len() - i,
{
    if i < s.len() && is_name_char(s[i]) {
        lemma_name_run_chars(s, i + 1);
    }
}

/// A stretch of name characters that is followed by none is a run.
proof fn lemma_name_run_span(s: Seq<char>, i: int, e: int)
    requires
        0 <= i <= e <= s.len(),
        forall|j: int| i <= j < e ==> is_name_char(#[trigger] s[j]),
        e == s.len() || !is_name_char(s[e]),
    ensures
        name_run_end(s, i) == e,
    decreases e - i,
{
    if i < e {
        lemma_name_run_span(s, i + 1, e);
    }
}

/// A stretch of digits that is followed by none is a run.
proof fn lemma_digit_run_span(s: Seq<char>, i: int, e: int)
    requires
        0 <= i <= e <= s.len(),
        forall|j: int| i <= j < e ==> is_digit(#[trigger] s[j]),
        e == s.len() || !is_digit(s[e]),
    ensures
        digit_run_end(s, i) == e,
    decreases e - i,
{
    if i < e {
        lemma_digit_run_span(s, i + 1, e);
    }
}

/// Inside a line, an argument is scanned as it is scanned alone, provided
/// that a space or a line terminator follows it.
proof fn lemma_argument_span(t: Seq<char>, p: int, a: Seq<char>, k: int)
    requires
        0 <= p,
        0 <= k <= a.len(),
        p + a.len() < t.len(),
        t.subrange(p, p + a.len()) == a,
        is_space(t[p + a.len()]) || is_eol(t[p + a.len()]),
    ensures
        argument_end(t, p + k) == p + argument_end(a, k),
    decreases a.len() - k,
{
    assert(forall|j: int| 0 <= j < a.len() ==> a[j] == t[p + j]) by {
        assert forall|j: int| 0 <= j < a.len() implies a[j] == t[p + j] by {
            assert(t.subrange(p, p + a.len())[j] == t[p + j]);
        }
    }
    if k < a.len() {
        assert(a[k] == t[p + k]);
        if k + 1 < a.len() {
            assert(a[k + 1] == t[p + k + 1]);
            if a[k] == '\\' && is_escapable(a[k + 1]) {
                lemma_argument_span(t, p, a, k + 2);
            } else if is_plain(a[k]) {
                lemma_argument_span(t, p, a, k + 1);
            }
        } else {
            if is_plain(a[k]) {
                lemma_argument_span(t, p, a, k + 1);
            }
        }
    }
}

/// The text of the arguments, read back from a line that ends behind it.
proof fn lemma_arguments_span(t: Seq<char>, p: int, arguments: Seq<Seq<char>>)
    requires
        0 <= p <= t.len(),
        t.skip(p) == arguments_text(arguments) + seq!['\n'],
        forall|i: int| 0 <= i < arguments.len() ==> is_argument(#[trigger] arguments[i]),
    ensures
        arguments_from(t, p) == (arguments, t.len() - 1),
    decreases arguments.len(),
{
    let rest = t.skip(p);
    if arguments.len() == 0 {
        assert(rest =~= seq!['\n']);
        assert(t[p] == rest[0]);
        assert(t.len() == p + 1);
        assert(space_run_end(t, p) == p);
    } else {
        let a = arguments[0];
        let tail = arguments.skip(1);
        let more = arguments_text(tail) + seq!['\n'];
        assert(is_argument(a));
        assert(rest =~= seq![' '] + a + more);
        assert(t.len() == p + 1 + a.len() + more.len());
        assert(forall|j: int| 0 <= j < rest.len() ==> rest[j] == t[p + j]);
        assert(t[p] == rest[0]);
        assert(t[p + 1] == rest[1]);
        assert(rest[1] == a[0]);
        assert(!is_space(a[0]));
        assert(space_run_end(t, p + 1) == p + 1);
        assert(space_run_end(t, p) == p + 1);
        let w: int = p + 1;
        let e: int = w + a.len();
        assert(t.subrange(w, e) =~= a) by {
            assert forall|j: int| 0 <= j < a.len() implies t.subrange(w, e)[j] == a[j] by {
                assert(rest[1 + j] == a[j]);
            }
        }
        assert(t[e] == rest[e - p]);
        assert(rest[e - p] == more[0]);
        assert(more[0] == ' ' || more[0] == '\n') by {
            if tail.len() > 0 {
                assert(arguments_text(tail)[0] == ' ');
            } else {
                assert(arguments_text(tail) =~= Seq::<char>::empty());
            }
        }
        lemma_argument_span(t, w, a, 0);
        assert(argument_end(t, w) == e);
        assert(t.skip(e) =~= more) by {
            assert(t.skip(e).len() == more.len());
            assert forall|j: int| 0 <= j < more.len() implies t.skip(e)[j] == more[j] by {
                assert(t[e + j] == rest[e - p + j]);
                assert(rest[e - p + j] == more[j]);
            }
        }
        assert forall|i: int| 0 <= i < tail.len() implies is_argument(#[trigger] tail[i]) by {
            assert(tail[i] == arguments[i + 1]);
        }
        lemma_arguments_span(t, e, tail);
        assert(seq![a] + tail =~= arguments);
    }
}

/// The line of a well-formed message starts with its sigil and its name,
/// and the name is read back as a whole.
proof fn lemma_serialized_name(m: MessageView)
    requires
        m.well_formed(),
    ensures
        serialize_spec(m).len() == 1 + m.name.len() + id_text(m.id).len() + arguments_text(
            m.arguments,
        ).len() + 1,
        kind_of_sigil(serialize_spec(m)[0]) == Some(m.kind),
        name_end(serialize_spec(m), 1) == Some(1 + m.name.len() as int),
        serialize_spec(m).subrange(1, 1 + m.name.len() as int) == m.name,
{
    let idt = id_text(m.id);
    let argt = arguments_text(m.arguments) + seq!['\n'];
    let t = serialize_spec(m);
    let n: int = 1 + m.name.len() as int;
    assert(t =~= seq![sigil(m.kind)] + m.name + idt + argt);
    assert(t[0] == sigil(m.kind));
    assert(forall|j: int| 0 <= j < m.name.len() ==> t[1 + j] == m.name[j]);
    assert(argt[0] == ' ' || argt[0] == '\n') by {
        if m.arguments.len() > 0 {
            assert(arguments_text(m.arguments)[0] == ' ');
        } else {
            assert(arguments_text(m.arguments) =~= Seq::<char>::empty());
        }
    }
    assert(is_alpha(m.name[0]));
    lemma_name_run_chars(m.name, 1);
    assert(t[n] == (if idt.len() > 0 {
        idt[0]
    } else {
        argt[0]
    }));
    assert(!is_name_char(t[n])) by {
        if m.id is Some {
            assert(idt[0] == '[');
        }
    }
    assert forall|j: int| 2 <= j < n implies is_name_char(#[trigger] t[j]) by {
        assert(t[j] == m.name[j - 1]);
    }
    lemma_name_run_span(t, 2, n);
    assert(t.subrange(1, n) =~= m.name);
}

/// Behind the name, the id of a well-formed message is read back, and none
/// where there is none.
proof fn lemma_serialized_id(m: MessageView)
    requires
        m.well_formed(),
    ensures
        id_at(serialize_spec(m), 1 + m.name.len() as int) == (match m.id {
            Some(v) => Some((v, 1 + m.name.len() as int + id_text(m.id).len() as int)),
            None => None,
        }),
{
    let idt = id_text(m.id);
    let argt = arguments_text(m.arguments) + seq!['\n'];
    let t = serialize_spec(m);
    let n: int = 1 + m.name.len() as int;
    assert(t =~= seq![sigil(m.kind)] + m.name + idt + argt);
    assert(forall|j: int| 0 <= j < idt.len() ==> t[n + j] == idt[j]);
    match m.id {
        Some(v) => {
            let d = decimal_digits(v as nat);
            crate::decimal::lemma_decimal_digits(v as nat);
            assert(idt =~= seq!['['] + d + seq![']']);
            assert(t[n] == idt[0]);
            assert(t[n + 1] == idt[1]);
            assert(idt[1] == d[0]);
            let e: int = n + 1 + d.len();
            assert forall|j: int| n + 1 <= j < e implies is_digit(#[trigger] t[j]) by {
                assert(t[j] == idt[j - n]);
                assert(idt[j - n] == d[j - n - 1]);
            }
            assert(t[e] == idt[e - n]);
            assert(t[e] == ']');
            lemma_digit_run_span(t, n + 1, e);
            assert(t.subrange(n + 1, e) =~= d) by {
                assert forall|j: int| 0 <= j < d.len() implies t.subrange(n + 1, e)[j] == d[j] by {
                    assert(t[n + 1 + j] == idt[1 + j]);
                }
            }
        },
        None => {
            assert(idt =~= Seq::<char>::empty());
            assert(t[n] == argt[0]);
            assert(argt[0] == ' ' || argt[0] == '\n') by {
                if m.arguments.len() > 0 {
                    assert(arguments_text(m.arguments)[0] == ' ');
                } else {
                    assert(arguments_text(m.arguments) =~= Seq::<char>::empty());
                }
            }
        },
    }
}

/// Behind the id, the arguments of a well-formed message are read back, up
/// to the newline that ends the line.
proof fn lemma_serialized_arguments(m: MessageView)
    requires
        m.well_formed(),
    ensures
        arguments_from(
            serialize_spec(m),
            1 + m.name.len() as int + id_text(m.id).len() as int,
        ) == (m.arguments, serialize_spec(m).len() - 1),
        serialize_spec(m)[serialize_spec(m).len() - 1] == '\n',
{
    let idt = id_text(m.id);
    let argt = arguments_text(m.arguments) + seq!['\n'];
    let t = serialize_spec(m);
    let p: int = 1 + m.name.len() as int + idt.len() as int;
    assert(t =~= seq![sigil(m.kind)] + m.name + idt + argt);
    assert(t.skip(p) =~= argt);
    lemma_arguments_span(t, p, m.arguments);
}

/// Parsing undoes serializing: the line written for a message that follows
/// the grammar, with an id that is not zero, parses to that message, with
/// nothing left behind the line.
pub proof fn lemma_parse_serialize(m: MessageView)
    requires
        m.well_formed(),
    ensures
        parse_spec(serialize_spec(m)) == Ok::<_, Seq<char>>((m, Seq::<char>::empty())),
{
    let t = serialize_spec(m);
    lemma_serialized_name(m);
    lemma_serialized_id(m);
    lemma_serialized_arguments(m);
    let q = t.len() - 1;
    assert(space_run_end(t, q) == q);
    assert(t.skip(q + 1) =~= Seq::<char>::empty());
}

/// Splits `input` behind its first `e` characters: what is left, and what
/// was taken.
fn split_at_char(input: &str, e: usize) -> (r: (&str, &str))
    requires
        e <= input@.len(),
    ensures
        r.0@ == input@.skip(e as int),
        r.1@ == input@.subrange(0, e as int),
{
    let len = input.unicode_len();
    assert(input@.subrange(e as int, len as int) =~= input@.skip(e as int));
    (input.substring_char(e, len), input.substring_char(0, e))
}

fn parse_error(v: &Vec<char>, from: usize) -> (e: KatcpError)
    requires
        from <= v.len(),
    ensures
        e matches KatcpError::ParseError(res) && res@ == v@.skip(from as int),
{
    KatcpError::ParseError(string_of_range(v, from, v.len()))
}

/// Reads the sigil at the start of `input`.
pub fn kind(input: &str) -> (r: Result<(&str, MessageKind), KatcpError>)
    ensures
        match r {
            Ok((rest, k)) => input@.len() > 0 && kind_of_sigil(input@[0]) == Some(k) && rest@
                == input@.skip(1),
            Err(e) => (input@.len() == 0 || kind_of_sigil(input@[0]) is None) && (
            e matches KatcpError::ParseError(res) && res@ == input@),
        },
{
    let v = to_chars(input);
    assert(v@.skip(0) =~= v@);
    if v.len() == 0 {
        return Err(parse_error(&v, 0));
    }
    let k = if v[0] == '?' {
        MessageKind::Request
    } else if v[0] == '!' {
        MessageKind::Reply
    } else if v[0] == '#' {
        MessageKind::Inform
    } else {
        return Err(parse_error(&v, 0));
    };
    Ok((split_at_char(input, 1).0, k))
}

/// Reads the spaces and tabs at the start of `input`: at least one.
pub fn whitespace(input: &str) -> (r: Result<(&str, &str), KatcpError>)
    ensures
        match r {
            Ok((rest, taken)) => space_run_end(input@, 0) > 0 && rest@ == input@.skip(
                space_run_end(input@, 0),
            ) && taken@ == input@.subrange(0, space_run_end(input@, 0)),
            Err(e) => space_run_end(input@, 0) == 0 && (e matches KatcpError::ParseError(res)
                && res@ == input@),
        },
{
    let v = to_chars(input);
    assert(v@.skip(0) =~= v@);
    let e = scan_space_run(&v, 0);
    if e == 0 {
        return Err(parse_error(&v, 0));
    }
    Ok(split_at_char(input, e))
}

/// Reads the name at the start of `input`.
pub fn name(input: &str) -> (r: Result<(&str, &str), KatcpError>)
    ensures
        match r {
            Ok((rest, taken)) => name_end(input@, 0) matches Some(e) && rest@ == input@.skip(e)
                && taken@ == input@.subrange(0, e),
            Err(e) => name_end(input@, 0) is None && (e matches KatcpError::ParseError(res) && res@
                == input@),
        },
{
    let v = to_chars(input);
    assert(v@.skip(0) =~= v@);
    if !(v.len() > 0 && is_alpha_char(v[0])) {
        return Err(parse_error(&v, 0));
    }
    let e = scan_name_run(&v, 1);
    Ok(split_at_char(input, e))
}

/// What is left of the input where the id at its start breaks off.
pub open spec fn id_residual(s: Seq<char>) -> Seq<char> {
    if s.len() == 0 || s[0] != '[' {
        s
    } else if s.len() < 2 || !is_digit(s[1]) || s[1] == '0' {
        s.skip(1)
    } else if digit_run_end(s, 1) >= s.len() || s[digit_run_end(s, 1)] != ']' {
        s.skip(digit_run_end(s, 1))
    } else {
        s
    }
}

/// Reads the message id at the start of `input`.
pub fn id(input: &str) -> (r: Result<(&str, u32), KatcpError>)
    ensures
        match r {
            Ok((rest, value)) => id_at(input@, 0) matches Some((v, e)) && v == value && rest@
                == input@.skip(e),
            Err(e) => id_at(input@, 0) is None && (e matches KatcpError::ParseError(res) && res@
                == id_residual(input@)),
        },
{
    let v = to_chars(input);
    assert(v@.skip(0) =~= v@);
    if v.len() == 0 || v[0] != '[' {
        return Err(parse_error(&v, 0));
    }
    if v.len() < 2 || !char_is_digit(v[1]) || v[1] == '0' {
        return Err(parse_error(&v, 1));
    }
    let e = scan_digit_run(&v, 1);
    if e >= v.len() || v[e] != ']' {
        return Err(parse_error(&v, e));
    }
    match parse_digits(&v, 1, e, 0xffff_ffff) {
        Some(value) => Ok((split_at_char(input, e + 1).0, value as u32)),
        None => Err(parse_error(&v, 0)),
    }
}

/// Reads the escape sequence at the start of `input`.
pub fn escape(input: &str) -> (r: Result<(&str, &str), KatcpError>)
    ensures
        match r {
            Ok((rest, taken)) => input@.len() >= 2 && input@[0] == '\\' && is_escapable(input@[1])
                && rest@ == input@.skip(2) && taken@ == input@.subrange(0, 2),
            Err(e) => !(input@.len() >= 2 && input@[0] == '\\' && is_escapable(input@[1])) && (
            e matches KatcpError::ParseError(res) && res@ == (if input@.len() > 0 && input@[0]
                == '\\' {
                input@.skip(1)
            } else {
                input@
            })),
        },
{
    let v = to_chars(input);
    assert(v@.skip(0) =~= v@);
    if v.len() == 0 || v[0] != '\\' {
        return Err(parse_error(&v, 0));
    }
    if v.len() < 2 || !is_escapable_char(v[1]) {
        return Err(parse_error(&v, 1));
    }
    Ok(split_at_char(input, 2))
}

/// Reads the line terminator at the start of `input`.
pub fn eol(input: &str) -> (r: Result<(&str, &str), KatcpError>)
    ensures
        match r {
            Ok((rest, taken)) => input@.len() > 0 && is_eol(input@[0]) && rest@ == input@.skip(1)
                && taken@ == input@.subrange(0, 1),
            Err(e) => !(input@.len() > 0 && is_eol(input@[0])) && (
            e matches KatcpError::ParseError(res) && res@ == input@),
        },
{
    let v = to_chars(input);
    assert(v@.skip(0) =~= v@);
    if v.len() > 0 && (v[0] == '\n' || v[0] == '\r') {
        Ok(split_at_char(input, 1))
    } else {
        Err(parse_error(&v, 0))
    }
}

/// Where the longest run of plain characters that starts at `i` ends.
pub open spec fn plain_run_end(s: Seq<char>, i: int) -> int
    decreases s.len() - i,
{
    if 0 <= i < s.len() && is_plain(s[i]) {
        plain_run_end(s, i + 1)
    } else {
        i
    }
}

/// Reads the plain characters at the start of `input`: at least one.
pub fn plain(input: &str) -> (r: Result<(&str, &str), KatcpError>)
    ensures
        match r {
            Ok((rest, taken)) => plain_run_end(input@, 0) > 0 && rest@ == input@.skip(
                plain_run_end(input@, 0),
            ) && taken@ == input@.subrange(0, plain_run_end(input@, 0)),
            Err(e) => plain_run_end(input@, 0) == 0 && (e matches KatcpError::ParseError(res)
                && res@ == input@),
        },
{
    let v = to_chars(input);
    assert(v@.skip(0) =~= v@);
    let mut i: usize = 0;
    while i < v.len() && is_plain_char(v[i])
        invariant
            i <= v.len(),
            plain_run_end(v@, i as int) == plain_run_end(v@, 0),
        decreases v.len() - i,
    {
        i += 1;
    }
    if i == 0 {
        return Err(parse_error(&v, 0));
    }
    Ok(split_at_char(input, i))
}

/// Reads the argument at the start of `input`: escape sequences and plain
/// characters, at least one.
pub fn argument(input: &str) -> (r: Result<(&str, &str), KatcpError>)
    ensures
        match r {
            Ok((rest, taken)) => argument_end(input@, 0) > 0 && rest@ == input@.skip(
                argument_end(input@, 0),
            ) && taken@ == input@.subrange(0, argument_end(input@, 0)),
            Err(e) => argument_end(input@, 0) == 0 && (e matches KatcpError::ParseError(res)
                && res@ == input@),
        },
{
    let v = to_chars(input);
    assert(v@.skip(0) =~= v@);
    let e = scan_argument(&v, 0);
    if e == 0 {
        return Err(parse_error(&v, 0));
    }
    Ok(split_at_char(input, e))
}

} // verus!
