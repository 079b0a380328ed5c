//! Cutting the text of a JSON object into the texts of its members.
use vstd::prelude::*;

use crate::text::{chars_of, trim_front, trim_set_front, CharSet};

verus! {

/// A member of an object: the texts of its name and of its value.
pub struct MemberText {
    pub name: String,
    pub value: String,
}

/// The model of a member.
pub struct MemberTextView {
    pub name: Seq<char>,
    pub value: Seq<char>,
}

impl View for MemberText {
    type V = MemberTextView;

    open spec fn view(&self) -> MemberTextView {
        MemberTextView { name: self.name@, value: self.value@ }
    }
}

/// The models of a list of members.
pub open spec fn member_texts(s: Seq<MemberText>) -> Seq<MemberTextView> {
    Seq::new(s.len(), |i: int| s[i]@)
}

/// What is known of an object after some of its text.
pub struct Cut {
    /// How many brackets and braces are open.
    pub depth: nat,
    /// Whether a string is open, and whether a backslash stands before what comes next.
    pub in_string: bool,
    pub escaped: bool,
    /// The last string, with its quotes as far as it goes.
    pub string: Seq<char>,
    /// The member whose value has begun.
    pub open: Option<MemberTextView>,
    /// The members whose values have ended.
    pub members: Seq<MemberTextView>,
}

/// How a character opens and closes strings, brackets and braces.
pub open spec fn bracketed(s: Cut, c: char) -> Cut {
    if s.in_string {
        Cut {
            in_string: s.escaped || c != '"',
            escaped: !s.escaped && c == '\\',
            string: s.string.push(c),
            ..s
        }
    } else if c == '"' {
        Cut { in_string: true, string: seq![c], ..s }
    } else if c == '{' || c == '[' {
        Cut { depth: s.depth + 1, ..s }
    } else if (c == '}' || c == ']') && s.depth > 0 {
        Cut { depth: (s.depth - 1) as nat, ..s }
    } else {
        s
    }
}

/// What is known after one more character. A colon in the object itself, not in a string or
/// in a value, ends the name of a member, and a comma or the last brace its value.
pub open spec fn cut_step(s: Cut, c: char) -> Cut {
    let next = bracketed(s, c);
    if !s.in_string && s.depth == 1 && c == ':' {
        Cut { open: Some(MemberTextView { name: s.string, value: Seq::empty() }), ..next }
    } else if !s.in_string && s.depth == 1 && (c == ',' || c == '}') {
        Cut {
            open: None,
            members: match s.open {
                Some(m) => s.members.push(m),
                None => s.members,
            },
            ..next
        }
    } else {
        Cut {
            open: match s.open {
                Some(m) => Some(MemberTextView { name: m.name, value: m.value.push(c) }),
                None => None,
            },
            ..next
        }
    }
}

/// What is known of an object after `text`.
pub open spec fn cut(text: Seq<char>) -> Cut
    decreases text.len(),
{
    if text.len() == 0 {
        Cut {
            depth: 0,
            in_string: false,
            escaped: false,
            string: Seq::empty(),
            open: None,
            members: Seq::empty(),
        }
    } else {
        cut_step(cut(text.drop_last()), text.last())
    }
}

/// The members of the object that `text` writes, in their order.
pub open spec fn members_of(text: Seq<char>) -> Seq<MemberTextView> {
    cut(text).members
}

/// Whether the text of a value begins an object.
pub open spec fn begins_object(value: Seq<char>) -> bool {
    let t = trim_front(value, CharSet::Whitespace);
    t.len() > 0 && t[0] == '{'
}

pub fn is_object_text(value: &str) -> (r: bool)
    ensures
        r == begins_object(value@),
{
    let t = trim_set_front(value, CharSet::Whitespace);
    t.unicode_len() > 0 && t.get_char(0) == '{'
}

struct Cutter {
    depth: usize,
    in_string: bool,
    escaped: bool,
    string: String,
    open: Option<MemberText>,
    members: Vec<MemberText>,
}

impl View for Cutter {
    type V = Cut;

    closed spec fn view(&self) -> Cut {
        Cut {
            depth: self.depth as nat,
            in_string: self.in_string,
            escaped: self.escaped,
            string: self.string@,
            open: match self.open {
                Some(m) => Some(m@),
                None => None,
            },
            members: member_texts(self.members@),
        }
    }
}

impl Cutter {
    fn bracket(&mut self, c: char)
        requires
            old(self).depth < usize::MAX,
        ensures
            final(self)@ == bracketed(old(self)@, c),
            final(self).depth <= old(self).depth + 1,
    {
        if self.in_string {
            self.string.push(c);
            if self.escaped {
                self.escaped = false;
            } else if c == '\\' {
                self.escaped = true;
            } else if c == '"' {
                self.in_string = false;
            }
        } else if c == '"' {
            self.in_string = true;
            let mut s = String::new();
            s.push(c);
            assert(s@ =~= seq![c]);
            self.string = s;
        } else if c == '{' || c == '[' {
            self.depth = self.depth + 1;
        } else if (c == '}' || c == ']') && self.depth > 0 {
            self.depth = self.depth - 1;
        }
    }

    fn step(&mut self, c: char)
        requires
            old(self).depth < usize::MAX,
        ensures
            final(self)@ == cut_step(old(self)@, c),
            final(self).depth <= old(self).depth + 1,
    {
        let ghost before = self@;
        if !self.in_string && self.depth == 1 && c == ':' {
            let name = self.string.clone();
            self.bracket(c);
            let m = MemberText { name, value: String::new() };
            assert(m@ =~= (MemberTextView { name: before.string, value: Seq::empty() }));
            self.open = Some(m);
        } else if !self.in_string && self.depth == 1 && (c == ',' || c == '}') {
            self.bracket(c);
            if let Some(m) = self.open.take() {
                let ghost was = self.members@;
                self.members.push(m);
                assert(member_texts(self.members@) =~= member_texts(was).push(m@));
            }
        } else {
            self.bracket(c);
            if let Some(m) = self.open.take() {
                let mut m = m;
                m.value.push(c);
                self.open = Some(m);
            }
        }
    }
}

/// Cuts the text of an object into its members.
pub fn cut_members(text: &str) -> (r: Vec<MemberText>)
    ensures
        member_texts(r@) == members_of(text@),
{
    let v = chars_of(text);
    let mut cutter = Cutter {
        depth: 0,
        in_string: false,
        escaped: false,
        string: String::new(),
        open: None,
        members: Vec::new(),
    };
    let mut i: usize = 0;
    assert(cutter@.members =~= cut(v@.take(0)).members);
    assert(cutter@.string =~= cut(v@.take(0)).string);
    while i < v.len()
        invariant
            i <= v@.len(),
            cutter.depth <= i,
            cutter@ == cut(v@.take(i as int)),
        decreases v@.len() - i,
    {
        assert(v@.take(i + 1).drop_last() =~= v@.take(i as int));
        let c = v[i];
        cutter.step(c);
        i += 1;
    }
    assert(v@.take(i as int) =~= v@);
    cutter.members
}

// ---------------------------------------------------------------------------
// Laws
// ---------------------------------------------------------------------------

proof fn lemma_cut_string(s: Seq<char>, t: Seq<char>)
    requires
        cut(s).in_string && !cut(s).escaped,
        forall|i: int| 0 <= i < t.len() ==> #[trigger] t[i] != '"' && t[i] != '\\',
        cut(s).open is None,
    ensures
        cut(s + t) == (Cut { string: cut(s).string + t, ..cut(s) }),
    decreases t.len(),
{
    if t.len() == 0 {
        assert(s + t =~= s);
        assert(cut(s).string + t =~= cut(s).string);
    } else {
        let before = t.drop_last();
        assert forall|i: int| 0 <= i < before.len() implies #[trigger] before[i] != '"'
            && before[i] != '\\' by {
            assert(before[i] == t[i]);
        }
        lemma_cut_string(s, before);
        assert((s + t).drop_last() =~= s + before);
        assert(t[t.len() - 1] != '"' && t[t.len() - 1] != '\\');
        assert((cut(s).string + before).push(t.last()) =~= cut(s).string + t);
    }
}

proof fn lemma_cut_value(s: Seq<char>, t: Seq<char>)
    requires
        cut(s).open is Some && !cut(s).in_string && cut(s).depth == 1,
        forall|i: int|
            0 <= i < t.len() ==> #[trigger] t[i] != '"' && t[i] != '{' && t[i] != '}' && t[i] != '['
                && t[i] != ']' && t[i] != ',' && t[i] != ':',
    ensures
        cut(s + t) == (Cut {
            open: Some(
                MemberTextView {
                    name: cut(s).open->0.name,
                    value: cut(s).open->0.value + t,
                },
            ),
            ..cut(s)
        }),
    decreases t.len(),
{
    if t.len() == 0 {
        assert(s + t =~= s);
        assert(cut(s).open->0.value + t =~= cut(s).open->0.value);
    } else {
        let before = t.drop_last();
        assert forall|i: int|
            0 <= i < before.len() implies #[trigger] before[i] != '"' && before[i] != '{'
            && before[i] != '}' && before[i] != '[' && before[i] != ']' && before[i] != ','
            && before[i] != ':' by {
            assert(before[i] == t[i]);
        }
        lemma_cut_value(s, before);
        assert((s + t).drop_last() =~= s + before);
        let c = t[t.len() - 1];
        assert(c != '"' && c != '{' && c != '}' && c != '[' && c != ']' && c != ',' && c != ':');
        assert((cut(s).open->0.value + before).push(t.last()) =~= cut(s).open->0.value + t);
    }
}

proof fn lemma_cut_char(s: Seq<char>, c: char)
    ensures
        cut(s + seq![c]) == cut_step(cut(s), c),
{
    assert((s + seq![c]).drop_last() =~= s);
}

/// Each member of an object is cut off with its name and its value, in order: after the brace
/// or a comma comes a name in quotation marks, then a colon, the value, and a comma or the last
/// brace.
pub proof fn law_member_is_cut_off(
    s: Seq<char>,
    inner: Seq<char>,
    value: Seq<char>,
    end: char,
)
    requires
        s == seq!['{'] || (cut(s).depth == 1 && !cut(s).in_string && !cut(s).escaped
            && cut(s).open is None),
        forall|i: int| 0 <= i < inner.len() ==> #[trigger] inner[i] != '"' && inner[i] != '\\',
        forall|i: int|
            0 <= i < value.len() ==> #[trigger] value[i] != '"' && value[i] != '{' && value[i]
                != '}' && value[i] != '[' && value[i] != ']' && value[i] != ',' && value[i] != ':',
        end == ',' || end == '}',
    ensures
        ({
            let name = seq!['"'] + inner + seq!['"'];
            let after = cut(s + seq!['"'] + inner + seq!['"'] + seq![':'] + value + seq![end]);
            &&& after.members == members_of(s).push(MemberTextView { name, value })
            &&& after.open is None && !after.in_string
            &&& after.depth == if end == ',' {
                1nat
            } else {
                0
            }
        }),
        members_of(seq!['{']).len() == 0,
{
    let none = Seq::<char>::empty();
    assert(seq!['{'] =~= none + seq!['{']);
    lemma_cut_char(none, '{');
    let a = s + seq!['"'];
    lemma_cut_char(s, '"');
    let b = a + inner;
    lemma_cut_string(a, inner);
    let c = b + seq!['"'];
    lemma_cut_char(b, '"');
    assert(cut(c).string =~= seq!['"'] + inner + seq!['"']);
    let d = c + seq![':'];
    lemma_cut_char(c, ':');
    lemma_cut_value(d, value);
    assert(none + value =~= value);
    assert(Seq::<char>::empty() + value =~= value);
    lemma_cut_char(d + value, end);
}

/// A value that begins with a brace, but for whitespace, is an object.
pub proof fn law_objects_are_seen(space: Seq<char>, rest: Seq<char>)
    requires
        forall|i: int| 0 <= i < space.len() ==> CharSet::Whitespace.has(#[trigger] space[i]),
    ensures
        begins_object(space + (seq!['{'] + rest)),
        rest.len() > 0 && !CharSet::Whitespace.has(rest[0]) && rest[0] != '{' ==> !begins_object(
            space + rest,
        ),
{
    crate::text::law_trim_front_cuts_the_front(space, seq!['{'] + rest, CharSet::Whitespace);
    if rest.len() > 0 && !CharSet::Whitespace.has(rest[0]) {
        crate::text::law_trim_front_cuts_the_front(space, rest, CharSet::Whitespace);
    }
}

} // verus!
