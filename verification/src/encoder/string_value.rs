//! Descriptions and other strings, as they are printed in a schema.
use vstd::prelude::*;
use vstd::string::StringExecFns;
use crate::text::{check_control, chars_of, is_control};

verus! {

/// Where in a schema a string stands. The places differ in how far the
/// string is indented and in whether it stands on lines of its own.
#[derive(Clone, Copy, PartialEq, Eq, Structural, Debug)]
pub enum Position {
    /// Before a definition at the top level: not indented, on its own line.
    Top,
    /// Before a field or an enum value: indented by two spaces, on its own
    /// line.
    Field,
    /// Before an input value: not indented, with a space behind it.
    Input,
    /// The reason of a deprecation: behind a space, inside the parentheses.
    Reason,
}

/// A string of a schema seen as a value.
pub struct StringValueView {
    pub position: Position,
    pub source: Option<Seq<char>>,
}

/// A string of a schema, with the place it stands in. Its text may be
/// absent.
#[derive(Debug, PartialEq, Clone)]
pub enum StringValue {
    /// A description at the top level.
    Top { source: Option<String> },
    /// The description of a field or of an enum value.
    Field { source: Option<String> },
    /// The description of an input value.
    Input { source: Option<String> },
    /// The reason of a deprecation.
    Reason { source: Option<String> },
}

/// Whether `text` is printed between double quotes on one line: it is
/// shorter than 80 characters and holds neither a control character, a line
/// break among them, nor a double quote. Any other text is printed as a
/// block string.
pub open spec fn is_plain(text: Seq<char>) -> bool {
    &&& text.len() < 80
    &&& forall|i: int| 0 <= i < text.len() ==> !is_control(#[trigger] text[i]) && text[i] != '"'
}

/// `text` with every backslash doubled.
pub open spec fn escaped(text: Seq<char>) -> Seq<char>
    decreases text.len(),
{
    if text.len() == 0 {
        Seq::empty()
    } else if text.last() == '\\' {
        escaped(text.drop_last()) + seq!['\\', '\\']
    } else {
        escaped(text.drop_last()).push(text.last())
    }
}

/// `text` with `indent` behind every line feed.
pub open spec fn indented(text: Seq<char>, indent: Seq<char>) -> Seq<char>
    decreases text.len(),
{
    if text.len() == 0 {
        Seq::empty()
    } else if text.last() == '\n' {
        indented(text.drop_last(), indent).push('\n') + indent
    } else {
        indented(text.drop_last(), indent).push(text.last())
    }
}

/// `text` between double quotes, escaped.
pub open spec fn quoted(text: Seq<char>) -> Seq<char> {
    seq!['"'] + escaped(text) + seq!['"']
}

/// `text` as a block string: three double quotes on a line, the lines of
/// the text, three double quotes on a line; each of these lines starts with
/// `indent`. No line feed stands behind the last line.
pub open spec fn block(text: Seq<char>, indent: Seq<char>) -> Seq<char> {
    indent + seq!['"', '"', '"', '\n'] + indent + indented(text, indent) + seq!['\n'] + indent
        + seq!['"', '"', '"']
}

/// What is printed for a string with the text `source` at `position`.
pub open spec fn rendered(position: Position, source: Option<Seq<char>>) -> Seq<char> {
    match source {
        None => Seq::empty(),
        Some(text) => match position {
            Position::Top => if is_plain(text) {
                quoted(text) + seq!['\n']
            } else {
                block(text, Seq::empty()) + seq!['\n']
            },
            Position::Field => if is_plain(text) {
                seq![' ', ' '] + quoted(text) + seq!['\n']
            } else {
                block(text, seq![' ', ' ']) + seq!['\n']
            },
            Position::Input => if is_plain(text) {
                quoted(text) + seq![' ']
            } else {
                block(text, Seq::empty()) + seq![' ']
            },
            Position::Reason => if is_plain(text) {
                seq![' '] + quoted(text)
            } else {
                seq!['\n'] + block(text, seq![' ', ' ']) + seq!['\n', ' ', ' ']
            },
        },
    }
}

impl View for StringValue {
    type V = StringValueView;

    open spec fn view(&self) -> StringValueView {
        match self {
            StringValue::Top { source } => StringValueView {
                position: Position::Top,
                source: text_of(*source),
            },
            StringValue::Field { source } => StringValueView {
                position: Position::Field,
                source: text_of(*source),
            },
            StringValue::Input { source } => StringValueView {
                position: Position::Input,
                source: text_of(*source),
            },
            StringValue::Reason { source } => StringValueView {
                position: Position::Reason,
                source: text_of(*source),
            },
        }
    }
}

/// The text of a string that may be absent.
pub open spec fn text_of(source: Option<String>) -> Option<Seq<char>> {
    match source {
        Some(s) => Some(s@),
        None => None,
    }
}

fn check_plain(chars: &Vec<char>) -> (r: bool)
    ensures
        r == is_plain(chars@),
{
    if chars.len() >= 80 {
        return false;
    }
    let mut i: usize = 0;
    while i < chars.len()
        invariant
            i <= chars@.len(),
            chars@.len() < 80,
            forall|j: int| 0 <= j < i ==> !is_control(#[trigger] chars@[j]) && chars@[j] != '"',
        decreases chars@.len() - i,
    {
        if check_control(chars[i]) || chars[i] == '"' {
            return false;
        }
        i = i + 1;
    }
    true
}

fn push_escaped(out: &mut String, chars: &Vec<char>)
    ensures
        final(out)@ == old(out)@ + escaped(chars@),
{
    let ghost start = out@;
    let mut i: usize = 0;
    proof {
        assert(chars@.take(0) =~= Seq::<char>::empty());
        assert(start + escaped(chars@.take(0)) =~= start);
    }
    while i < chars.len()
        invariant
            i <= chars@.len(),
            out@ == start + escaped(chars@.take(i as int)),
        decreases chars@.len() - i,
    {
        let ghost before = escaped(chars@.take(i as int));
        proof {
            assert(chars@.take(i + 1).drop_last() =~= chars@.take(i as int));
        }
        if chars[i] == '\\' {
            out.push('\\');
            out.push('\\');
            proof {
                assert(out@ =~= start + (before + seq!['\\', '\\']));
            }
        } else {
            out.push(chars[i]);
            proof {
                assert(out@ =~= start + before.push(chars@[i as int]));
            }
        }
        i = i + 1;
    }
    proof {
        assert(chars@.take(i as int) =~= chars@);
    }
}

fn push_indented(out: &mut String, chars: &Vec<char>, indent: &str)
    ensures
        final(out)@ == old(out)@ + indented(chars@, indent@),
{
    let ghost start = out@;
    let mut i: usize = 0;
    proof {
        assert(chars@.take(0) =~= Seq::<char>::empty());
        assert(start + indented(chars@.take(0), indent@) =~= start);
    }
    while i < chars.len()
        invariant
            i <= chars@.len(),
            out@ == start + indented(chars@.take(i as int), indent@),
        decreases chars@.len() - i,
    {
        let ghost before = indented(chars@.take(i as int), indent@);
        proof {
            assert(chars@.take(i + 1).drop_last() =~= chars@.take(i as int));
        }
        out.push(chars[i]);
        if chars[i] == '\n' {
            out.append(indent);
            proof {
                assert(out@ =~= start + (before.push('\n') + indent@));
            }
        } else {
            proof {
                assert(out@ =~= start + before.push(chars@[i as int]));
            }
        }
        i = i + 1;
    }
    proof {
        assert(chars@.take(i as int) =~= chars@);
    }
}

fn push_quoted(out: &mut String, chars: &Vec<char>)
    ensures
        final(out)@ == old(out)@ + quoted(chars@),
{
    let ghost start = out@;
    out.push('"');
    push_escaped(out, chars);
    out.push('"');
    proof {
        assert(out@ =~= start + quoted(chars@));
    }
}

fn push_quotes(out: &mut String)
    ensures
        final(out)@ == old(out)@ + seq!['"', '"', '"'],
{
    let ghost start = out@;
    out.push('"');
    out.push('"');
    out.push('"');
    proof {
        assert(out@ =~= start + seq!['"', '"', '"']);
    }
}

fn push_block(out: &mut String, chars: &Vec<char>, indent: &str)
    ensures
        final(out)@ == old(out)@ + block(chars@, indent@),
{
    let ghost start = out@;
    out.append(indent);
    push_quotes(out);
    out.push('\n');
    out.append(indent);
    push_indented(out, chars, indent);
    out.push('\n');
    out.append(indent);
    push_quotes(out);
    proof {
        assert(out@ =~= start + block(chars@, indent@));
    }
}

/// Two spaces.
fn two_spaces() -> (s: &'static str)
    ensures
        s@ == seq![' ', ' '],
{
    proof {
        reveal_strlit("  ");
        assert("  "@ =~= seq![' ', ' ']);
    }
    "  "
}

/// No text.
fn nothing() -> (s: &'static str)
    ensures
        s@ == Seq::<char>::empty(),
{
    proof {
        reveal_strlit("");
        assert(""@ =~= Seq::<char>::empty());
    }
    ""
}

impl StringValue {
    /// The place the string stands in.
    pub fn position(&self) -> (p: Position)
        ensures
            p == self@.position,
    {
        match self {
            StringValue::Top { .. } => Position::Top,
            StringValue::Field { .. } => Position::Field,
            StringValue::Input { .. } => Position::Input,
            StringValue::Reason { .. } => Position::Reason,
        }
    }

    /// The text of the string, if it has one.
    pub fn source(&self) -> (s: &Option<String>)
        ensures
            text_of(*s) == self@.source,
    {
        match self {
            StringValue::Top { source } => source,
            StringValue::Field { source } => source,
            StringValue::Input { source } => source,
            StringValue::Reason { source } => source,
        }
    }

    /// What is printed for the string. Nothing is printed for a string
    /// without text. A plain text is printed between double quotes, any
    /// other as a block string.
    pub fn to_string(&self) -> (s: String)
        ensures
            s@ == rendered(self@.position, self@.source),
    {
        let mut out = String::new();
        let text = match self.source() {
            None => {
                return out;
            },
            Some(text) => text,
        };
        let chars = chars_of(text.as_str());
        let plain = check_plain(&chars);
        match self.position() {
            Position::Top => {
                if plain {
                    push_quoted(&mut out, &chars);
                } else {
                    push_block(&mut out, &chars, nothing());
                }
                out.push('\n');
            },
            Position::Field => {
                if plain {
                    out.append(two_spaces());
                    push_quoted(&mut out, &chars);
                } else {
                    push_block(&mut out, &chars, two_spaces());
                }
                out.push('\n');
            },
            Position::Input => {
                if plain {
                    push_quoted(&mut out, &chars);
                } else {
                    push_block(&mut out, &chars, nothing());
                }
                out.push(' ');
            },
            Position::Reason => {
                if plain {
                    out.push(' ');
                    push_quoted(&mut out, &chars);
                } else {
                    out.push('\n');
                    push_block(&mut out, &chars, two_spaces());
                    out.push('\n');
                    out.append(two_spaces());
                }
            },
        }
        proof {
            assert(out@ =~= rendered(self@.position, self@.source));
        }
        out
    }
}

} // verus!
