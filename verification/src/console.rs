//! The console bridge's text formatting.
//!
//! The native kernel delivers partition console output as a raw byte buffer
//! together with the partition whose configuration record carries a
//! fixed-width, NUL-padded name field. The bridge turns the two into a single
//! line of the shape `"<name>: <message>"`: the name loses its trailing NUL
//! padding, the message loses one trailing newline, and every newline left
//! inside the message is followed by enough spaces for the continuation line
//! to align under the first character of the message.

use vstd::prelude::*;

verus! {

/// The newline byte.
pub open spec fn nl() -> u8 {
    10u8
}

/// The two bytes `": "` that separate the partition name from its message.
pub open spec fn separator() -> Seq<u8> {
    seq![58u8, 32u8]
}

/// A run of `n` space bytes, used to indent continuation lines.
pub open spec fn spaces(n: nat) -> Seq<u8> {
    Seq::new(n, |i: int| 32u8)
}

/// The name field with its trailing NUL padding removed.
pub open spec fn trimmed_name(s: Seq<u8>) -> Seq<u8>
    decreases s.len(),
{
    if s.len() > 0 && s.last() == 0u8 {
        trimmed_name(s.drop_last())
    } else {
        s
    }
}

/// The message with one trailing newline removed, if it ends in one.
pub open spec fn trimmed_message(s: Seq<u8>) -> Seq<u8> {
    if s.len() > 0 && s.last() == nl() {
        s.drop_last()
    } else {
        s
    }
}

/// The line prefix `"<name>: "` built from a raw name field.
pub open spec fn prefix_of(name_field: Seq<u8>) -> Seq<u8> {
    trimmed_name(name_field) + separator()
}

/// `msg` with every newline followed by `width` spaces, so that each
/// continuation line starts under the first character after a prefix of
/// length `width`.
pub open spec fn indented(msg: Seq<u8>, width: nat) -> Seq<u8>
    decreases msg.len(),
{
    if msg.len() == 0 {
        Seq::empty()
    } else if msg.first() == nl() {
        seq![nl()] + spaces(width) + indented(msg.drop_first(), width)
    } else {
        seq![msg.first()] + indented(msg.drop_first(), width)
    }
}

/// The full console line the bridge emits for a raw name field and a raw
/// message buffer.
pub open spec fn console_line(name_field: Seq<u8>, msg: Seq<u8>) -> Seq<u8> {
    prefix_of(name_field) + indented(trimmed_message(msg), prefix_of(name_field).len())
}

/// Indentation distributes over concatenation of message pieces.
proof fn lemma_indented_append(a: Seq<u8>, b: Seq<u8>, width: nat)
    ensures
        indented(a + b, width) == indented(a, width) + indented(b, width),
    decreases a.len(),
{
    if a.len() == 0 {
        assert(a + b =~= b);
        assert(indented(a, width) + indented(b, width) =~= indented(b, width));
    } else {
        assert((a + b).first() == a.first());
        assert((a + b).drop_first() =~= a.drop_first() + b);
        lemma_indented_append(a.drop_first(), b, width);
        assert(indented(a + b, width) =~= indented(a, width) + indented(b, width));
    }
}

/// Indentation of a one-byte message.
proof fn lemma_indented_one(b: u8, width: nat)
    ensures
        b == nl() ==> indented(seq![b], width) == seq![nl()] + spaces(width),
        b != nl() ==> indented(seq![b], width) == seq![b],
{
    let e = Seq::<u8>::empty();
    assert(seq![b].len() == 1);
    assert(seq![b].first() == b);
    assert(seq![b].drop_first() =~= e);
    assert(indented(e, width) == e);
    if b == nl() {
        assert(indented(seq![b], width) == seq![nl()] + spaces(width) + indented(e, width));
        assert(seq![nl()] + spaces(width) + e =~= seq![nl()] + spaces(width));
    } else {
        assert(indented(seq![b], width) == seq![b] + indented(e, width));
        assert(seq![b] + e =~= seq![b]);
    }
}

/// A newline-free message is never reshaped by indentation.
proof fn lemma_indented_newline_free(s: Seq<u8>, width: nat)
    requires
        forall|i: int| 0 <= i < s.len() ==> s[i] != nl(),
    ensures
        indented(s, width) == s,
    decreases s.len(),
{
    if s.len() == 0 {
        assert(indented(s, width) =~= s);
    } else {
        lemma_indented_newline_free(s.drop_first(), width);
        assert(seq![s.first()] + s.drop_first() =~= s);
    }
}

/// A copy of a raw name field with its trailing NUL padding removed.
#[verifier::loop_isolation(false)]
pub fn trim_name(name_field: &Vec<u8>) -> (r: Vec<u8>)
    ensures
        r@ == trimmed_name(name_field@),
{
    let mut end: usize = name_field.len();
    proof {
        assert(name_field@.subrange(0, end as int) =~= name_field@);
    }
    while end > 0 && name_field[end - 1] == 0
        invariant
            end <= name_field.len(),
            trimmed_name(name_field@) == trimmed_name(name_field@.subrange(0, end as int)),
        decreases end,
    {
        proof {
            assert(name_field@.subrange(0, end as int).last() == name_field@[end - 1]);
            assert(name_field@.subrange(0, end as int).drop_last()
                =~= name_field@.subrange(0, end as int - 1));
        }
        end = end - 1;
    }
    proof {
        if end > 0 {
            assert(name_field@.subrange(0, end as int).last() == name_field@[end - 1]);
        }
        assert(trimmed_name(name_field@.subrange(0, end as int))
            == name_field@.subrange(0, end as int));
    }
    let mut out: Vec<u8> = Vec::new();
    let mut i: usize = 0;
    while i < end
        invariant
            i <= end,
            out@ == name_field@.subrange(0, i as int),
        decreases end - i,
    {
        out.push(name_field[i]);
        proof {
            assert(out@ =~= name_field@.subrange(0, i as int + 1));
        }
        i = i + 1;
    }
    out
}

/// The exact line the bridge emits: the NUL-trimmed name, `": "`, and the
/// message with one trailing newline stripped and each remaining newline
/// followed by one space per prefix byte.
#[verifier::loop_isolation(false)]
pub fn format_console_line(name_field: &Vec<u8>, message: &Vec<u8>) -> (r: Vec<u8>)
    ensures
        r@ == console_line(name_field@, message@),
{
    let mut out = trim_name(name_field);
    out.push(58);
    out.push(32);
    proof {
        assert(out@ =~= prefix_of(name_field@));
    }
    let width: usize = out.len();

    let msg_end: usize = if message.len() > 0 && message[message.len() - 1] == 10 {
        message.len() - 1
    } else {
        message.len()
    };
    let ghost trimmed = trimmed_message(message@);
    proof {
        assert(message@.subrange(0, msg_end as int) =~= trimmed);
        assert(trimmed.subrange(0, 0) =~= Seq::<u8>::empty());
        assert(indented(Seq::<u8>::empty(), width as nat) =~= Seq::<u8>::empty());
        assert(out@ =~= prefix_of(name_field@) + indented(trimmed.subrange(0, 0), width as nat));
    }

    let mut i: usize = 0;
    while i < msg_end
        invariant
            i <= msg_end,
            out@ == prefix_of(name_field@) + indented(trimmed.subrange(0, i as int), width as nat),
        decreases msg_end - i,
    {
        let b = message[i];
        let ghost done = prefix_of(name_field@) + indented(
            trimmed.subrange(0, i as int),
            width as nat,
        );
        out.push(b);
        if b == 10 {
            proof {
                assert(spaces(0) =~= Seq::<u8>::empty());
                assert(out@ =~= done + seq![nl()] + spaces(0));
            }
            let mut j: usize = 0;
            while j < width
                invariant
                    j <= width,
                    out@ == done + seq![nl()] + spaces(j as nat),
                decreases width - j,
            {
                out.push(32);
                proof {
                    assert(spaces(j as nat).push(32u8) =~= spaces((j + 1) as nat));
                    assert(out@ =~= done + seq![nl()] + spaces((j + 1) as nat));
                }
                j = j + 1;
            }
        }
        proof {
            assert(trimmed[i as int] == message@[i as int]);
            assert(trimmed.subrange(0, i as int + 1)
                =~= trimmed.subrange(0, i as int) + seq![b]);
            lemma_indented_append(trimmed.subrange(0, i as int), seq![b], width as nat);
            lemma_indented_one(b, width as nat);
            if b == 10 {
                assert(out@ =~= done + indented(seq![b], width as nat));
            }
            assert(out@ =~= prefix_of(name_field@) + indented(
                trimmed.subrange(0, i as int + 1),
                width as nat,
            ));
        }
        i = i + 1;
    }
    proof {
        assert(trimmed.subrange(0, msg_end as int) =~= trimmed);
        assert(out@ =~= console_line(name_field@, message@));
    }
    out
}

/// An empty message buffer produces exactly the prefix `"<name>: "`, with no
/// trailing content, for every name field.
pub proof fn lemma_empty_message(name_field: Seq<u8>)
    ensures
        console_line(name_field, Seq::<u8>::empty()) == prefix_of(name_field),
{
    assert(indented(Seq::<u8>::empty(), prefix_of(name_field).len()) =~= Seq::<u8>::empty());
    assert(console_line(name_field, Seq::<u8>::empty()) =~= prefix_of(name_field));
}

/// A newline embedded in a message splits it into a continuation line: the
/// line holds the prefix and the first part, then the newline, then one space
/// per prefix byte, then the second part, which thus aligns under the first
/// character of the message.
pub proof fn lemma_embedded_newline(name_field: Seq<u8>, first_line: Seq<u8>, rest: Seq<u8>)
    requires
        forall|i: int| 0 <= i < first_line.len() ==> first_line[i] != nl(),
        forall|i: int| 0 <= i < rest.len() ==> rest[i] != nl(),
        rest.len() > 0,
    ensures
        console_line(name_field, first_line + seq![nl()] + rest) == prefix_of(name_field)
            + first_line + seq![nl()] + spaces(prefix_of(name_field).len()) + rest,
{
    let width = prefix_of(name_field).len();
    let msg = first_line + seq![nl()] + rest;
    assert(msg.last() == rest.last());
    assert(trimmed_message(msg) == msg);
    assert(first_line + (seq![nl()] + rest) =~= msg);
    lemma_indented_append(first_line, seq![nl()] + rest, width);
    lemma_indented_append(seq![nl()], rest, width);
    lemma_indented_one(nl(), width);
    lemma_indented_newline_free(first_line, width);
    lemma_indented_newline_free(rest, width);
    assert(console_line(name_field, msg) =~= prefix_of(name_field) + first_line + seq![nl()]
        + spaces(width) + rest);
}

/// A single trailing newline is stripped before prefixing: appending one to a
/// message that does not already end in one never changes the emitted line.
pub proof fn lemma_trailing_newline(name_field: Seq<u8>, msg: Seq<u8>)
    requires
        msg.len() == 0 || msg.last() != nl(),
    ensures
        console_line(name_field, msg.push(nl())) == console_line(name_field, msg),
{
    assert(msg.push(nl()).drop_last() =~= msg);
    assert(trimmed_message(msg.push(nl())) == msg);
    assert(trimmed_message(msg) == msg);
}

} // verus!
