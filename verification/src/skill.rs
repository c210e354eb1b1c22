//! Skills: named instructions, read from markdown files with a front matter,
//! that a slash command puts in front of the user's prompt.

use vstd::prelude::*;

use crate::text::same_text;

verus! {

/// The front matter of a skill file.
#[derive(Clone, Debug)]
pub struct SkillMetadata {
    pub name: String,
    pub description: String,
    pub tools: Vec<String>,
}

/// A skill: its front matter and the markdown body that instructs the model.
#[derive(Clone, Debug)]
pub struct Skill {
    pub metadata: SkillMetadata,
    pub instructions: String,
}

pub struct SkillView {
    pub name: Seq<char>,
    pub description: Seq<char>,
    pub tools: Seq<Seq<char>>,
    pub instructions: Seq<char>,
}

impl View for Skill {
    type V = SkillView;

    open spec fn view(&self) -> SkillView {
        SkillView {
            name: self.metadata.name@,
            description: self.metadata.description@,
            tools: self.metadata.tools@.map_values(|t: String| t@),
            instructions: self.instructions@,
        }
    }
}

impl Skill {
    pub fn duplicate(&self) -> (r: Skill)
        ensures
            r@ == self@,
    {
        let mut tools: Vec<String> = Vec::new();
        let mut i: usize = 0;
        while i < self.metadata.tools.len()
            invariant
                i <= self.metadata.tools.len(),
                tools.len() == i,
                forall|k: int| 0 <= k < i ==> (#[trigger] tools@[k])@ == self.metadata.tools@[k]@,
            decreases self.metadata.tools.len() - i,
        {
            tools.push(self.metadata.tools[i].clone());
            i = i + 1;
        }
        assert(tools@.map_values(|t: String| t@) =~= self.metadata.tools@.map_values(
            |t: String| t@,
        ));
        Skill {
            metadata: SkillMetadata {
                name: self.metadata.name.clone(),
                description: self.metadata.description.clone(),
                tools,
            },
            instructions: self.instructions.clone(),
        }
    }
}

/// The skill that a registry holding `s` gives for `name`: the first one of
/// that name.
pub open spec fn lookup(s: Seq<SkillView>, name: Seq<char>) -> Option<SkillView>
    decreases s.len(),
{
    if s.len() == 0 {
        None
    } else if s[0].name == name {
        Some(s[0])
    } else {
        lookup(s.drop_first(), name)
    }
}

/// The position of the first skill named `name`, or the length.
pub open spec fn position(s: Seq<SkillView>, name: Seq<char>) -> int
    decreases s.len(),
{
    if s.len() == 0 {
        0
    } else if s[0].name == name {
        0
    } else {
        1 + position(s.drop_first(), name)
    }
}

/// The skills that a registry holding `s` holds after `x` is inserted: `x`
/// takes the place of the skill of its name, or comes last.
pub open spec fn inserted(s: Seq<SkillView>, x: SkillView) -> Seq<SkillView> {
    let k = position(s, x.name);
    if k < s.len() {
        s.update(k, x)
    } else {
        s.push(x)
    }
}

proof fn lemma_position(s: Seq<SkillView>, name: Seq<char>)
    ensures
        0 <= position(s, name) <= s.len(),
        position(s, name) < s.len() ==> s[position(s, name)].name == name && lookup(s, name)
            == Some(s[position(s, name)]),
        position(s, name) == s.len() ==> lookup(s, name) is None,
        forall|k: int| 0 <= k < position(s, name) ==> s[k].name != name,
    decreases s.len(),
{
    if s.len() > 0 && s[0].name != name {
        lemma_position(s.drop_first(), name);
        assert forall|k: int| 0 <= k < position(s, name) implies s[k].name != name by {
            if k > 0 {
                assert(s[k] == s.drop_first()[k - 1]);
            }
        }
    }
}

/// The lookup of a name depends on the skills of that name only.
proof fn lemma_lookup_frame(s: Seq<SkillView>, t: Seq<SkillView>, name: Seq<char>)
    requires
        s.len() == t.len(),
        forall|k: int| 0 <= k < s.len() ==> (s[k].name == name <==> t[k].name == name),
        forall|k: int| 0 <= k < s.len() && s[k].name == name ==> s[k] == t[k],
    ensures
        lookup(s, name) == lookup(t, name),
    decreases s.len(),
{
    if s.len() > 0 {
        lemma_lookup_frame(s.drop_first(), t.drop_first(), name);
    }
}

proof fn lemma_lookup_push(s: Seq<SkillView>, x: SkillView, name: Seq<char>)
    requires
        lookup(s, name) is Some || x.name != name,
    ensures
        lookup(s.push(x), name) == lookup(s, name),
    decreases s.len(),
{
    let t = s.push(x);
    if s.len() > 0 {
        assert(t.drop_first() =~= s.drop_first().push(x));
        assert(t[0] == s[0]);
        if s[0].name != name {
            lemma_lookup_push(s.drop_first(), x, name);
        }
    } else {
        assert(t.drop_first() =~= Seq::<SkillView>::empty());
        assert(t[0] == x);
        assert(lookup(t.drop_first(), name) is None);
    }
}

/// Law: after `x` is inserted, its name gives `x` and every other name
/// gives what it gave before (the laws of a map's insert).
pub proof fn law_inserted_lookup(s: Seq<SkillView>, x: SkillView, name: Seq<char>)
    ensures
        lookup(inserted(s, x), name) == if name == x.name {
            Some(x)
        } else {
            lookup(s, name)
        },
{
    lemma_position(s, x.name);
    let k = position(s, x.name);
    let t = inserted(s, x);
    if k < s.len() {
        if name == x.name {
            lemma_position(t, name);
            if position(t, name) < k {
                assert(s[position(t, name)].name == name);
            }
            if position(t, name) > k {
                assert(t[k].name == name);
            }
            assert(position(t, name) == k);
            assert(t[k] == x);
        } else {
            lemma_lookup_frame(s, t, name);
        }
    } else {
        if name == x.name {
            lemma_position(t, name);
            if position(t, name) < s.len() {
                assert(t[position(t, name)] == s[position(t, name)]);
                assert(s[position(t, name)].name == name);
            }
            assert(t[s.len() as int] == x);
        } else {
            lemma_lookup_push(s, x, name);
        }
    }
}

/// The skills, found by name.
pub struct SkillRegistry {
    skills: Vec<Skill>,
}

impl View for SkillRegistry {
    type V = Seq<SkillView>;

    closed spec fn view(&self) -> Seq<SkillView> {
        self.skills@.map_values(|s: Skill| s@)
    }
}

impl SkillRegistry {
    /// A registry without skills.
    pub fn new() -> (r: SkillRegistry)
        ensures
            r@ == Seq::<SkillView>::empty(),
    {
        let r = SkillRegistry { skills: Vec::new() };
        assert(r@ =~= Seq::<SkillView>::empty());
        r
    }

    /// The number of skills.
    pub fn len(&self) -> (r: usize)
        ensures
            r == self@.len(),
    {
        self.skills.len()
    }

    fn find(&self, name: &str) -> (r: usize)
        ensures
            r == position(self@, name@),
    {
        let ghost s = self@;
        let mut i: usize = 0;
        assert(s.subrange(0, s.len() as int) =~= s);
        while i < self.skills.len() && !same_text(self.skills[i].metadata.name.as_str(), name)
            invariant
                s == self@,
                s.len() == self.skills.len(),
                i <= self.skills.len(),
                position(s, name@) == i + position(s.subrange(i as int, s.len() as int), name@),
            decreases self.skills.len() - i,
        {
            assert(s.subrange(i as int, s.len() as int).drop_first() =~= s.subrange(
                i + 1,
                s.len() as int,
            ));
            i = i + 1;
        }
        i
    }

    /// Adds `skill` under its name, in place of a skill of the same name.
    pub fn insert(&mut self, skill: Skill)
        ensures
            final(self)@ == inserted(old(self)@, skill@),
    {
        proof {
            lemma_position(self@, skill@.name);
        }
        let k = self.find(skill.metadata.name.as_str());
        if k < self.skills.len() {
            self.skills.set(k, skill);
        } else {
            self.skills.push(skill);
        }
        assert(self@ =~= inserted(old(self)@, skill@));
    }

    /// A copy of the skill named `name`.
    pub fn get(&self, name: &str) -> (r: Option<Skill>)
        ensures
            match r {
                Some(s) => lookup(self@, name@) == Some(s@),
                None => lookup(self@, name@) is None,
            },
    {
        proof {
            lemma_position(self@, name@);
        }
        let k = self.find(name);
        if k < self.skills.len() {
            Some(self.skills[k].duplicate())
        } else {
            None
        }
    }

    /// Whether a skill is named `name`.
    pub fn contains_key(&self, name: &str) -> (r: bool)
        ensures
            r == lookup(self@, name@) is Some,
    {
        proof {
            lemma_position(self@, name@);
        }
        self.find(name) < self.skills.len()
    }
}

} // verus!
