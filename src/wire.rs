use vstd::prelude::*;
use vstd::slice::slice_subrange;
use vstd::utf8::valid_utf8;

verus! {

/// Type tag of a big-endian 32-bit integer (`i`).
pub const TAG_INT: u8 = 105;

/// Type tag of a big-endian 32-bit float (`f`).
pub const TAG_FLOAT: u8 = 102;

/// Type tag of a zero-terminated, zero-padded string (`s`).
pub const TAG_STRING: u8 = 115;

/// Type tag of the value true, without data (`T`).
pub const TAG_TRUE: u8 = 84;

/// Type tag of the value false, without data (`F`).
pub const TAG_FALSE: u8 = 70;

/// Type tag of the empty value, without data (`N`).
pub const TAG_NIL: u8 = 78;

/// Leading byte of the type tag string (`,`).
pub const TAG_LEAD: u8 = 44;

/// The value of one decoded argument.
pub enum ArgValue {
    Int(i32),
    Float(u32),
    Str(Seq<u8>),
    True,
    False,
    Nil,
}

/// The value of one decoded message.
pub struct MessageValue {
    pub path: Seq<u8>,
    pub args: Seq<ArgValue>,
}

/// One typed argument of a control message. A float is held as its
/// IEEE-754 single-precision bits; a string as its bytes.
#[derive(Clone, Debug, PartialEq, Eq)]
pub enum ControlArgument {
    Int(i32),
    Float(u32),
    Str(Vec<u8>),
    True,
    False,
    Nil,
}

impl View for ControlArgument {
    type V = ArgValue;

    open spec fn view(&self) -> ArgValue {
        match self {
            ControlArgument::Int(v) => ArgValue::Int(*v),
            ControlArgument::Float(v) => ArgValue::Float(*v),
            ControlArgument::Str(s) => ArgValue::Str(s@),
            ControlArgument::True => ArgValue::True,
            ControlArgument::False => ArgValue::False,
            ControlArgument::Nil => ArgValue::Nil,
        }
    }
}

pub open spec fn args_view(v: Seq<ControlArgument>) -> Seq<ArgValue> {
    v.map_values(|a: ControlArgument| a@)
}

/// One decoded datagram: an address path and its ordered arguments.
#[derive(Clone, Debug, PartialEq, Eq)]
pub struct ControlMessage {
    pub path: Vec<u8>,
    pub arguments: Vec<ControlArgument>,
}

impl View for ControlMessage {
    type V = MessageValue;

    open spec fn view(&self) -> MessageValue {
        MessageValue { path: self.path@, args: args_view(self.arguments@) }
    }
}

/// Why a datagram could not be decoded.
#[derive(Clone, Copy, Debug, PartialEq, Eq, Structural)]
pub enum DecodeError {
    MalformedPayload,
}

/// Index of the first zero byte at or after `i`.
pub open spec fn find_nul(b: Seq<u8>, i: int) -> Option<int>
    decreases b.len() - i,
{
    if i < 0 || i >= b.len() {
        None
    } else if b[i] == 0 {
        Some(i)
    } else {
        find_nul(b, i + 1)
    }
}

/// Bytes of padding that bring `used` up to a multiple of four.
pub open spec fn pad_of(used: int) -> int {
    if used % 4 == 0 {
        0
    } else {
        4 - used % 4
    }
}

/// A zero-terminated, zero-padded string starting at `pos`: its bytes and the
/// position after its padding.
pub open spec fn parse_string(b: Seq<u8>, pos: int) -> Option<(Seq<u8>, int)> {
    match find_nul(b, pos) {
        None => None,
        Some(z) => {
            let end = z + 1 + pad_of(z + 1 - pos);
            if end <= b.len() && valid_utf8(b.subrange(pos, z)) {
                Some((b.subrange(pos, z), end))
            } else {
                None
            }
        },
    }
}

/// The big-endian 32-bit word at `pos`.
pub open spec fn be_word(b: Seq<u8>, pos: int) -> u32 {
    (b[pos] as int * 16777216 + b[pos + 1] as int * 65536 + b[pos + 2] as int * 256
        + b[pos + 3] as int) as u32
}

/// One argument of type `tag` at `pos`: its value and the position after it.
pub open spec fn parse_arg(tag: u8, b: Seq<u8>, pos: int) -> Option<(ArgValue, int)> {
    if tag == TAG_TRUE {
        Some((ArgValue::True, pos))
    } else if tag == TAG_FALSE {
        Some((ArgValue::False, pos))
    } else if tag == TAG_NIL {
        Some((ArgValue::Nil, pos))
    } else if tag == TAG_INT || tag == TAG_FLOAT {
        if 0 <= pos && pos + 4 <= b.len() {
            if tag == TAG_INT {
                Some((ArgValue::Int(be_word(b, pos) as i32), pos + 4))
            } else {
                Some((ArgValue::Float(be_word(b, pos)), pos + 4))
            }
        } else {
            None
        }
    } else if tag == TAG_STRING {
        match parse_string(b, pos) {
            None => None,
            Some((s, end)) => Some((ArgValue::Str(s), end)),
        }
    } else {
        None
    }
}

/// The arguments of the first `k` tags, read from `start` on, and the position
/// after them.
pub open spec fn parse_args(tags: Seq<u8>, b: Seq<u8>, start: int, k: nat) -> Option<
    (Seq<ArgValue>, int),
>
    decreases k,
{
    if k == 0 {
        Some((Seq::empty(), start))
    } else {
        match parse_args(tags, b, start, (k - 1) as nat) {
            None => None,
            Some((args, pos)) => match parse_arg(tags[k - 1], b, pos) {
                None => None,
                Some((a, next)) => Some((args.push(a), next)),
            },
        }
    }
}

/// The message a datagram encodes and the position after its last argument:
/// a path string, a type tag string that starts with `,`, then one argument
/// per tag.
pub open spec fn parse_frame(b: Seq<u8>) -> Option<(MessageValue, int)> {
    match parse_string(b, 0) {
        None => None,
        Some((path, path_end)) => match parse_string(b, path_end) {
            None => None,
            Some((tt, tags_end)) => if tt.len() >= 1 && tt[0] == TAG_LEAD {
                match parse_args(tt.drop_first(), b, tags_end, (tt.len() - 1) as nat) {
                    None => None,
                    Some((args, end)) => Some((MessageValue { path, args }, end)),
                }
            } else {
                None
            },
        },
    }
}

/// The message a datagram encodes. Bytes after the last argument are ignored.
pub open spec fn parse_message(b: Seq<u8>) -> Option<MessageValue> {
    match parse_frame(b) {
        None => None,
        Some((m, _)) => Some(m),
    }
}

/// Whether `tag` is one of the type tags of the wire format.
pub open spec fn is_known_tag(tag: u8) -> bool {
    tag == TAG_INT || tag == TAG_FLOAT || tag == TAG_STRING || tag == TAG_TRUE || tag
        == TAG_FALSE || tag == TAG_NIL
}

/// Relies on `std::str::from_utf8`: it succeeds exactly on valid UTF-8.
#[verifier::external_body]
fn is_utf8(b: &[u8]) -> (r: bool)
    ensures
        r == valid_utf8(b@),
{
    std::str::from_utf8(b).is_ok()
}

fn find_nul_from(b: &[u8], pos: usize) -> (r: Option<usize>)
    ensures
        match r {
            None => find_nul(b@, pos as int) is None,
            Some(z) => find_nul(b@, pos as int) == Some(z as int) && pos <= z < b@.len(),
        },
{
    let mut i: usize = pos;
    while i < b.len()
        invariant
            pos <= i,
            find_nul(b@, pos as int) == find_nul(b@, i as int),
        decreases b.len() - i,
    {
        if b[i] == 0 {
            return Some(i);
        }
        i = i + 1;
    }
    None
}

fn decode_string(b: &[u8], pos: usize) -> (r: Option<(Vec<u8>, usize)>)
    ensures
        match r {
            None => parse_string(b@, pos as int) is None,
            Some((s, end)) => parse_string(b@, pos as int) == Some((s@, end as int)),
        },
{
    let z = match find_nul_from(b, pos) {
        None => return None,
        Some(z) => z,
    };
    let n: usize = b.len();
    assert(pos <= z < n);
    let used: usize = (z + 1) - pos;
    let pad: usize = if used % 4 == 0 { 0 } else { 4 - used % 4 };
    if pad > b.len() - (z + 1) {
        return None;
    }
    let text = slice_subrange(b, pos, z);
    if !is_utf8(text) {
        return None;
    }
    let mut out: Vec<u8> = Vec::new();
    let mut i: usize = 0;
    while i < text.len()
        invariant
            i <= text@.len(),
            out@ == text@.subrange(0, i as int),
        decreases text@.len() - i,
    {
        out.push(text[i]);
        i = i + 1;
    }
    assert(out@ == text@);
    Some((out, z + 1 + pad))
}

fn read_word(b: &[u8], pos: usize) -> (r: u32)
    requires
        pos + 4 <= b@.len(),
    ensures
        r == be_word(b@, pos as int),
{
    (b[pos] as u32) * 16777216 + (b[pos + 1] as u32) * 65536 + (b[pos + 2] as u32) * 256 + (
    b[pos + 3] as u32)
}

fn decode_argument(tag: u8, b: &[u8], pos: usize) -> (r: Option<(ControlArgument, usize)>)
    ensures
        match r {
            None => parse_arg(tag, b@, pos as int) is None,
            Some((a, next)) => parse_arg(tag, b@, pos as int) == Some((a@, next as int)),
        },
{
    if tag == TAG_TRUE {
        Some((ControlArgument::True, pos))
    } else if tag == TAG_FALSE {
        Some((ControlArgument::False, pos))
    } else if tag == TAG_NIL {
        Some((ControlArgument::Nil, pos))
    } else if tag == TAG_INT || tag == TAG_FLOAT {
        if pos > b.len() || b.len() - pos < 4 {
            return None;
        }
        let w = read_word(b, pos);
        if tag == TAG_INT {
            Some((ControlArgument::Int(w as i32), pos + 4))
        } else {
            Some((ControlArgument::Float(w), pos + 4))
        }
    } else if tag == TAG_STRING {
        match decode_string(b, pos) {
            None => None,
            Some((s, end)) => Some((ControlArgument::Str(s), end)),
        }
    } else {
        None
    }
}

/// Decodes one datagram.
///
/// Succeeds exactly when the bytes hold a well-formed message, and then
/// returns that message.
pub fn decode(b: &[u8]) -> (r: Result<ControlMessage, DecodeError>)
    ensures
        match r {
            Ok(m) => parse_message(b@) == Some(m@),
            Err(e) => parse_message(b@) is None && e == DecodeError::MalformedPayload,
        },
{
    let (path, path_end) = match decode_string(b, 0) {
        None => return Err(DecodeError::MalformedPayload),
        Some(x) => x,
    };
    let (tt, tags_end) = match decode_string(b, path_end) {
        None => return Err(DecodeError::MalformedPayload),
        Some(x) => x,
    };
    if tt.len() < 1 || tt[0] != TAG_LEAD {
        return Err(DecodeError::MalformedPayload);
    }
    let ghost tags = tt@.drop_first();
    let mut arguments: Vec<ControlArgument> = Vec::new();
    let mut pos: usize = tags_end;
    let mut k: usize = 1;
    while k < tt.len()
        invariant
            1 <= k <= tt@.len(),
            tt@.len() >= 1,
            tags == tt@.drop_first(),
            tt@[0] == TAG_LEAD,
            parse_string(b@, 0) == Some((path@, path_end as int)),
            parse_string(b@, path_end as int) == Some((tt@, tags_end as int)),
            parse_args(tags, b@, tags_end as int, (k - 1) as nat) == Some(
                (args_view(arguments@), pos as int),
            ),
        decreases tt@.len() - k,
    {
        assert(tags[k - 1] == tt@[k as int]);
        match decode_argument(tt[k], b, pos) {
            None => {
                proof {
                    assert(parse_args(tags, b@, tags_end as int, k as nat) is None);
                    lemma_parse_args_stays_failed(tags, b@, tags_end as int, k as nat, (tt@.len() - 1) as nat);
                }
                return Err(DecodeError::MalformedPayload);
            },
            Some((a, next)) => {
                let ghost before = arguments@;
                let ghost av = a@;
                arguments.push(a);
                pos = next;
                assert(args_view(arguments@) =~= args_view(before).push(av));
            },
        }
        k = k + 1;
    }
    Ok(ControlMessage { path, arguments })
}

proof fn lemma_find_nul_in_prefix(b: Seq<u8>, i: int, n: int)
    requires
        0 <= n <= b.len(),
        find_nul(b, i) is Some,
    ensures
        find_nul(b, i)->Some_0 < n ==> find_nul(b.take(n), i) == find_nul(b, i),
        find_nul(b, i)->Some_0 >= n ==> find_nul(b.take(n), i) is None,
        i <= find_nul(b, i)->Some_0,
    decreases b.len() - i,
{
    if 0 <= i < b.len() && b[i] != 0 {
        lemma_find_nul_in_prefix(b, i + 1, n);
    }
}

proof fn lemma_string_in_prefix(b: Seq<u8>, pos: int, n: int)
    requires
        0 <= n <= b.len(),
        parse_string(b, pos) is Some,
    ensures
        pos < parse_string(b, pos)->Some_0.1 <= b.len(),
        parse_string(b, pos)->Some_0.1 <= n ==> parse_string(b.take(n), pos) == parse_string(
            b,
            pos,
        ),
        parse_string(b, pos)->Some_0.1 > n ==> parse_string(b.take(n), pos) is None,
{
    lemma_find_nul_in_prefix(b, pos, n);
    let z = find_nul(b, pos)->Some_0;
    if z < n {
        assert(b.take(n).subrange(pos, z) =~= b.subrange(pos, z));
    }
}

proof fn lemma_arg_in_prefix(tag: u8, b: Seq<u8>, pos: int, n: int)
    requires
        0 <= pos <= n <= b.len(),
        parse_arg(tag, b, pos) is Some,
    ensures
        pos <= parse_arg(tag, b, pos)->Some_0.1 <= b.len(),
        parse_arg(tag, b, pos)->Some_0.1 <= n ==> parse_arg(tag, b.take(n), pos) == parse_arg(
            tag,
            b,
            pos,
        ),
        parse_arg(tag, b, pos)->Some_0.1 > n ==> parse_arg(tag, b.take(n), pos) is None,
{
    if tag == TAG_STRING {
        lemma_string_in_prefix(b, pos, n);
    } else if tag == TAG_INT || tag == TAG_FLOAT {
        if pos + 4 <= n {
            assert(be_word(b.take(n), pos) == be_word(b, pos));
        }
    }
}

proof fn lemma_args_in_prefix(tags: Seq<u8>, b: Seq<u8>, start: int, k: nat, n: int)
    requires
        0 <= start <= n <= b.len(),
        k <= tags.len(),
        parse_args(tags, b, start, k) is Some,
    ensures
        start <= parse_args(tags, b, start, k)->Some_0.1 <= b.len(),
        parse_args(tags, b, start, k)->Some_0.1 <= n ==> parse_args(tags, b.take(n), start, k)
            == parse_args(tags, b, start, k),
        parse_args(tags, b, start, k)->Some_0.1 > n ==> parse_args(tags, b.take(n), start, k) is None,
    decreases k,
{
    if k > 0 {
        let k1 = (k - 1) as nat;
        lemma_args_in_prefix(tags, b, start, k1, n);
        let pos = parse_args(tags, b, start, k1)->Some_0.1;
        lemma_arg_in_prefix(tags[k - 1], b, pos, b.len() as int);
        if pos <= n {
            lemma_arg_in_prefix(tags[k - 1], b, pos, n);
        }
    }
}

/// A datagram cut short of its last argument does not decode: every strict
/// prefix of an exactly framed message is malformed.
pub proof fn lemma_truncated_is_malformed(b: Seq<u8>, n: int)
    requires
        parse_frame(b) is Some,
        parse_frame(b)->Some_0.1 == b.len(),
        0 <= n < b.len(),
    ensures
        parse_message(b.take(n)) is None,
{
    lemma_string_in_prefix(b, 0, n);
    let path_end = parse_string(b, 0)->Some_0.1;
    if path_end <= n {
        lemma_string_in_prefix(b, path_end, n);
        let (tt, tags_end) = parse_string(b, path_end)->Some_0;
        if tags_end <= n {
            lemma_args_in_prefix(tt.drop_first(), b, tags_end, (tt.len() - 1) as nat, n);
        }
    }
}

proof fn lemma_parse_args_stays_failed(tags: Seq<u8>, b: Seq<u8>, start: int, k: nat, n: nat)
    requires
        k <= n,
        parse_args(tags, b, start, k) is None,
    ensures
        parse_args(tags, b, start, n) is None,
    decreases n - k,
{
    if k < n {
        lemma_parse_args_stays_failed(tags, b, start, k, (n - 1) as nat);
    }
}

/// A datagram whose type tag string holds a byte that is no type tag does
/// not decode.
pub proof fn lemma_unknown_tag_is_malformed(b: Seq<u8>, k: int)
    requires
        parse_string(b, 0) is Some,
        parse_string(b, parse_string(b, 0)->Some_0.1) is Some,
        1 <= k < parse_string(b, parse_string(b, 0)->Some_0.1)->Some_0.0.len(),
        !is_known_tag(parse_string(b, parse_string(b, 0)->Some_0.1)->Some_0.0[k]),
    ensures
        parse_message(b) is None,
{
    let (tt, tags_end) = parse_string(b, parse_string(b, 0)->Some_0.1)->Some_0;
    let tags = tt.drop_first();
    assert(tags[k - 1] == tt[k]);
    assert(parse_args(tags, b, tags_end, k as nat) is None);
    lemma_parse_args_stays_failed(tags, b, tags_end, k as nat, (tt.len() - 1) as nat);
}

/// A datagram whose type tag string does not start with `,` does not decode.
pub proof fn lemma_missing_tag_lead_is_malformed(b: Seq<u8>)
    requires
        parse_string(b, 0) is Some,
        parse_string(b, parse_string(b, 0)->Some_0.1) is Some,
        parse_string(b, parse_string(b, 0)->Some_0.1)->Some_0.0.len() == 0 || parse_string(
            b,
            parse_string(b, 0)->Some_0.1,
        )->Some_0.0[0] != TAG_LEAD,
    ensures
        parse_message(b) is None,
{
}

} // verus!
