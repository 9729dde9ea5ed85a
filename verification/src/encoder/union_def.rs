//! Union definitions.
use vstd::prelude::*;
use vstd::string::StringExecFns;
use crate::encoder::string_value::{rendered, Position, StringValue, StringValueView};

verus! {

/// A union definition seen as a value.
pub struct UnionDefView {
    pub name: Seq<char>,
    pub description: StringValueView,
    pub members: Seq<Seq<char>>,
}

/// A union: a type that is one of several object types, its members.
///
/// *UnionTypeDefinition*: Description? **union** Name Directives?
/// UnionMemberTypes?
#[derive(Debug, PartialEq, Clone)]
pub struct UnionDef {
    // The name of the union.
    name: String,
    // The description, which may be absent.
    description: StringValue,
    // The members of the union, in the order they were added.
    members: Vec<String>,
}

/// The texts of a sequence of strings.
pub open spec fn texts(strings: Seq<String>) -> Seq<Seq<char>> {
    Seq::new(strings.len(), |i: int| strings[i]@)
}

/// The members with ` | ` between each two.
pub open spec fn joined(members: Seq<Seq<char>>) -> Seq<char>
    decreases members.len(),
{
    if members.len() == 0 {
        Seq::empty()
    } else if members.len() == 1 {
        members[0]
    } else {
        joined(members.drop_last()) + " | "@ + members.last()
    }
}

/// What is printed for a union: its description, then `union`, its name,
/// `=` and its members on one line.
pub open spec fn encoded(def: UnionDefView) -> Seq<char> {
    rendered(def.description.position, def.description.source) + "union "@ + def.name + " = "@
        + joined(def.members) + seq!['\n']
}

impl View for UnionDef {
    type V = UnionDefView;

    closed spec fn view(&self) -> UnionDefView {
        UnionDefView {
            name: self.name@,
            description: self.description@,
            members: texts(self.members@),
        }
    }
}

impl UnionDef {
    /// Create a new instance of a UnionDef.
    pub fn new(name: &str) -> (def: UnionDef)
        ensures
            def@ == (UnionDefView {
                name: name@,
                description: StringValueView { position: Position::Top, source: None },
                members: Seq::empty(),
            }),
    {
        let def = UnionDef {
            name: name.to_owned(),
            description: StringValue::Top { source: None },
            members: Vec::new(),
        };
        proof {
            assert(texts(def.members@) =~= Seq::<Seq<char>>::empty());
        }
        def
    }

    /// Set the description of the union.
    pub fn description(&mut self, description: &str)
        ensures
            final(self)@ == (UnionDefView {
                name: old(self)@.name,
                description: StringValueView {
                    position: Position::Top,
                    source: Some(description@),
                },
                members: old(self)@.members,
            }),
    {
        self.description = StringValue::Top { source: Some(description.to_owned()) };
    }

    /// Add a member to the union, behind those it has.
    pub fn member(&mut self, member: &str)
        ensures
            final(self)@ == (UnionDefView {
                name: old(self)@.name,
                description: old(self)@.description,
                members: old(self)@.members.push(member@),
            }),
    {
        self.members.push(member.to_owned());
        proof {
            assert(texts(self.members@) =~= texts(old(self).members@).push(member@));
        }
    }

    /// What is printed for the union.
    pub fn to_string(&self) -> (s: String)
        ensures
            s@ == encoded(self@),
    {
        let mut out = self.description.to_string();
        out.append("union ");
        out.append(self.name.as_str());
        out.append(" = ");
        let ghost head = out@;
        let ghost members = texts(self.members@);
        let mut i: usize = 0;
        proof {
            assert(members.take(0) =~= Seq::<Seq<char>>::empty());
            assert(head + joined(members.take(0)) =~= head);
        }
        while i < self.members.len()
            invariant
                i <= self.members@.len(),
                members == texts(self.members@),
                out@ == head + joined(members.take(i as int)),
            decreases self.members@.len() - i,
        {
            let ghost before = joined(members.take(i as int));
            proof {
                assert(members.take(i + 1).drop_last() =~= members.take(i as int));
                assert(members.take(i + 1).last() == members[i as int]);
            }
            if i > 0 {
                out.append(" | ");
            }
            out.append(self.members[i].as_str());
            proof {
                if i > 0 {
                    assert(out@ =~= head + (before + " | "@ + members[i as int]));
                } else {
                    assert(before =~= Seq::<char>::empty());
                    assert(out@ =~= head + members[i as int]);
                }
            }
            i = i + 1;
        }
        proof {
            assert(members.take(i as int) =~= members);
        }
        out.push('\n');
        proof {
            assert(out@ =~= encoded(self@));
        }
        out
    }
}

} // verus!
