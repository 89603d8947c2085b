//! The MOTD (description) parser. A status response carries the message of
//! the day as a chat-component tree: a plain JSON string, an object with a
//! `text` field and a nested `extra` array of further components, or an
//! array of components. Flattening concatenates every `text` field
//! depth-first in document order and strips the two-character formatting
//! codes — the section sign together with the character after it.

use vstd::prelude::*;
use vstd::string::StrSliceExecFns;
use vstd::string::StringExecFns;

verus! {

/// Relies on std's `String::push`: it appends exactly the given character
/// to the end of the string.
pub assume_specification[ String::push ](s: &mut String, ch: char)
    ensures
        final(s)@ == old(s)@.push(ch),
;

/// True of the character that introduces a two-character formatting code.
pub open spec fn is_section_sign(c: char) -> bool {
    c == '\u{a7}'
}

/// `s` with every formatting code removed: each section sign disappears
/// together with the character after it (a lone trailing section sign is
/// dropped too).
pub open spec fn strip_codes(s: Seq<char>) -> Seq<char>
    decreases s.len(),
{
    if s.len() == 0 {
        Seq::empty()
    } else if is_section_sign(s[0]) {
        if s.len() == 1 {
            Seq::empty()
        } else {
            strip_codes(s.skip(2))
        }
    } else {
        seq![s[0]] + strip_codes(s.skip(1))
    }
}

/// Removes the protocol's formatting codes from `s`: every section sign
/// and the character following it.
pub fn strip_color_codes(s: &str) -> (r: String)
    ensures
        r@ == strip_codes(s@),
{
    let n = s.unicode_len();
    let mut out = String::new();
    let mut i: usize = 0;
    proof {
        assert(s@.skip(0) =~= s@);
    }
    while i < n
        invariant
            i <= n,
            n == s@.len(),
            strip_codes(s@) == out@ + strip_codes(s@.skip(i as int)),
        decreases n - i,
    {
        let c = s.get_char(i);
        proof {
            assert(s@.skip(i as int)[0] == c);
        }
        if c == '\u{a7}' {
            if n - i >= 2 {
                proof {
                    assert(s@.skip(i as int).skip(2) =~= s@.skip(i as int + 2));
                }
                i += 2;
            } else {
                proof {
                    assert(s@.skip(i as int).len() == 1);
                    assert(s@.skip(n as int).len() == 0);
                }
                i = n;
            }
        } else {
            let ghost prev = out@;
            out.push(c);
            proof {
                assert(s@.skip(i as int).skip(1) =~= s@.skip(i as int + 1));
                assert(out@ + strip_codes(s@.skip(i as int + 1)) =~= prev + (seq![c]
                    + strip_codes(s@.skip(i as int + 1))));
            }
            i += 1;
        }
    }
    proof {
        assert(s@.skip(n as int).len() == 0);
        assert(out@ + strip_codes(s@.skip(n as int)) =~= out@);
    }
    out
}

/// One node of the chat-component tree a description field carries: a plain
/// JSON string, an object reduced to its `text` and `extra` fields (absent
/// ones read as empty), an array of further components, or any other JSON
/// value, which flattens to nothing.
pub enum ChatComponent {
    Text(String),
    Node { text: String, extra: Vec<ChatComponent> },
    List(Vec<ChatComponent>),
    Invalid,
}

/// The plain text one component flattens to: every `text` field depth-first
/// in document order, formatting codes stripped.
pub open spec fn flatten_component(c: ChatComponent) -> Seq<char>
    decreases c,
{
    match c {
        ChatComponent::Text(s) => strip_codes(s@),
        ChatComponent::Node { text, extra } => strip_codes(text@) + flatten_components(extra@),
        ChatComponent::List(items) => flatten_components(items@),
        ChatComponent::Invalid => Seq::empty(),
    }
}

/// The concatenation of what each component in `cs` flattens to, in order.
pub open spec fn flatten_components(cs: Seq<ChatComponent>) -> Seq<char>
    decreases cs,
{
    if cs.len() == 0 {
        Seq::empty()
    } else {
        flatten_components(cs.drop_last()) + flatten_component(cs.last())
    }
}

/// Flattens a description's chat-component tree to the plain MOTD text.
pub fn parse_motd(component: &ChatComponent) -> (r: String)
    ensures
        r@ == flatten_component(*component),
    decreases *component,
{
    match component {
        ChatComponent::Text(s) => strip_color_codes(s.as_str()),
        ChatComponent::Node { text, extra } => {
            let mut out = strip_color_codes(text.as_str());
            let rest = parse_extra(extra);
            out.append(rest.as_str());
            out
        },
        ChatComponent::List(items) => parse_extra(items),
        ChatComponent::Invalid => String::new(),
    }
}

/// Flattens an array of chat components — an `extra` field or a top-level
/// array — in document order.
pub fn parse_extra(components: &Vec<ChatComponent>) -> (r: String)
    ensures
        r@ == flatten_components(components@),
    decreases components@,
{
    let mut out = String::new();
    let mut i: usize = 0;
    while i < components.len()
        invariant
            i <= components@.len(),
            out@ == flatten_components(components@.subrange(0, i as int)),
        decreases components@.len() - i,
    {
        let piece = parse_motd(&components[i]);
        out.append(piece.as_str());
        proof {
            assert(components@.subrange(0, i as int + 1).drop_last() =~= components@.subrange(
                0,
                i as int,
            ));
            assert(components@.subrange(0, i as int + 1).last() == components@[i as int]);
        }
        i += 1;
    }
    proof {
        assert(components@.subrange(0, components@.len() as int) =~= components@);
    }
    out
}

} // verus!
