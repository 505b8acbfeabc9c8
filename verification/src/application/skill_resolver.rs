//! Resolution of the `/skill` commands a user types.

use vstd::prelude::*;
use crate::domain::content::{blocks_view, BlockView, ContentBlock};
use crate::domain::error::{AgentError, AgentErrorCode};
use crate::domain::skill::SkillDefinition;
use crate::domain::turn::{ResolvedSkillInjection, TurnAugmentation};
use crate::text::{
    concat3, contains_string, lemma_words_at_whitespace, split_whitespace, str_chars, str_eq, string_from_range, words,
};

verus! {

/// The skills a turn invokes and the augmentation they produce.
#[derive(Debug, Clone, PartialEq, Eq)]
pub struct ResolvedTurnInput {
    pub invoked_skill_names: Vec<String>,
    pub augmentation: TurnAugmentation,
}

/// Resolves skill commands.
pub struct SkillResolver;

/// The skill name a word invokes: the rest of a word that starts with `/`, if not empty.
pub open spec fn invoked_name(w: Seq<char>) -> Option<Seq<char>> {
    if w.len() > 1 && w[0] == '/' {
        Some(w.drop_first())
    } else {
        None
    }
}

/// The skill names that a sequence of words invokes, in order.
pub open spec fn word_names(ws: Seq<Seq<char>>) -> Seq<Seq<char>>
    decreases ws.len(),
{
    if ws.len() == 0 {
        Seq::empty()
    } else {
        word_names(ws.drop_last()) + match invoked_name(ws.last()) {
            Some(n) => seq![n],
            None => Seq::empty(),
        }
    }
}

/// The skill names that the text blocks of the input invoke, in order. File contents and
/// images are not scanned.
pub open spec fn block_names(bs: Seq<BlockView>) -> Seq<Seq<char>>
    decreases bs.len(),
{
    if bs.len() == 0 {
        Seq::empty()
    } else {
        block_names(bs.drop_last()) + match bs.last() {
            BlockView::Text { text } => word_names(words(text)),
            _ => Seq::empty(),
        }
    }
}

/// The sequence with every element after its first occurrence left out.
pub open spec fn dedup(s: Seq<Seq<char>>) -> Seq<Seq<char>>
    decreases s.len(),
{
    if s.len() == 0 {
        Seq::empty()
    } else {
        dedup(s.drop_last()) + if dedup(s.drop_last()).contains(s.last()) {
            Seq::empty()
        } else {
            seq![s.last()]
        }
    }
}

/// The index of the first skill named `name`, if there is one.
pub open spec fn skill_index(skills: Seq<SkillDefinition>, name: Seq<char>) -> Option<int> {
    if exists|i: int| 0 <= i < skills.len() && skills[i].name@ == name {
        Some(choose|i: int| 0 <= i < skills.len() && skills[i].name@ == name
            && forall|j: int| 0 <= j < i ==> skills[j].name@ != name)
    } else {
        None
    }
}

/// Whether `d[i]` is the first name of `d` that no skill carries.
pub open spec fn first_missing(skills: Seq<SkillDefinition>, d: Seq<Seq<char>>, i: int) -> bool {
    &&& 0 <= i < d.len()
    &&& skill_index(skills, d[i]) is None
    &&& forall|j: int| 0 <= j < i ==> skill_index(skills, #[trigger] d[j]) is Some
}

/// The XML block that injects a skill's prompt.
pub open spec fn skill_xml(name: Seq<char>, prompt: Seq<char>) -> Seq<char> {
    "<skill name=\""@ + name + "\">\n"@ + prompt + "\n</skill>"@
}

/// Whether an injection injects the skill `name`, found at `idx` among `skills`.
pub open spec fn injection_for(inj: ResolvedSkillInjection, skills: Seq<SkillDefinition>, name: Seq<char>) -> bool {
    &&& skill_index(skills, name) is Some
    &&& inj.skill_name@ == name
    &&& inj.rendered_xml@ == skill_xml(name, skills[skill_index(skills, name).unwrap()].prompt@)
}

proof fn lemma_skill_index(skills: Seq<SkillDefinition>, name: Seq<char>, i: int)
    requires
        0 <= i < skills.len(),
        skills[i].name@ == name,
        forall|j: int| 0 <= j < i ==> skills[j].name@ != name,
    ensures
        skill_index(skills, name) == Some(i),
{
    let k = choose|k: int| 0 <= k < skills.len() && skills[k].name@ == name
        && forall|j: int| 0 <= j < k ==> skills[j].name@ != name;
    if k < i {
        assert(skills[k].name@ != name);
    }
    if k > i {
        assert(skills[i].name@ != name);
    }
}

fn find_skill(skills: &Vec<SkillDefinition>, name: &str) -> (r: Option<usize>)
    ensures
        match r {
            Some(i) => {
                &&& skill_index(skills@, name@) == Some(i as int)
                &&& i < skills.len()
                &&& skills@[i as int].name@ == name@
            },
            None => skill_index(skills@, name@) is None,
        },
{
    let mut i: usize = 0;
    while i < skills.len()
        invariant
            i <= skills.len(),
            forall|j: int| 0 <= j < i ==> skills@[j].name@ != name@,
        decreases skills.len() - i,
    {
        if str_eq(skills[i].name.as_str(), name) {
            proof {
                lemma_skill_index(skills@, name@, i as int);
            }
            return Some(i);
        }
        i += 1;
    }
    None
}

fn append_word_names(out: &mut Vec<String>, text: &str)
    ensures
        final(out).deep_view() == old(out).deep_view() + word_names(words(text@)),
{
    let ws = split_whitespace(text);
    let ghost start = out.deep_view();
    let mut i: usize = 0;
    while i < ws.len()
        invariant
            i <= ws.len(),
            ws.deep_view() == words(text@),
            out.deep_view() == start + word_names(ws.deep_view().take(i as int)),
        decreases ws.len() - i,
    {
        let ghost before = out.deep_view();
        assert(ws.deep_view().take(i + 1).drop_last() =~= ws.deep_view().take(i as int));
        let v = str_chars(ws[i].as_str());
        if v.len() > 1 && v[0] == '/' {
            let name = string_from_range(&v, 1, v.len());
            assert(v@.subrange(1, v@.len() as int) =~= v@.drop_first());
            out.push(name);
            assert(out.deep_view() =~= before.push(v@.drop_first()));
            assert(start + word_names(ws.deep_view().take(i + 1)) =~= before + seq![v@.drop_first()]);
        } else {
            assert(start + word_names(ws.deep_view().take(i + 1)) =~= before + Seq::<Seq<char>>::empty());
        }
        i += 1;
    }
    assert(ws.deep_view().take(i as int) =~= ws.deep_view());
}

fn collect_names(user_input: &[ContentBlock]) -> (r: Vec<String>)
    ensures
        r.deep_view() == block_names(blocks_view(user_input@)),
{
    let mut out: Vec<String> = Vec::new();
    let ghost bv = blocks_view(user_input@);
    let mut i: usize = 0;
    while i < user_input.len()
        invariant
            i <= user_input.len(),
            bv == blocks_view(user_input@),
            out.deep_view() == block_names(bv.take(i as int)),
        decreases user_input.len() - i,
    {
        assert(bv.take(i + 1).drop_last() =~= bv.take(i as int));
        assert(bv.take(i + 1).last() == user_input@[i as int]@);
        let ghost before = out.deep_view();
        match user_input[i].explicit_text() {
            Some(text) => {
                append_word_names(&mut out, text);
            },
            None => {
                assert(before + Seq::<Seq<char>>::empty() =~= before);
            },
        }
        i += 1;
    }
    assert(bv.take(i as int) =~= bv);
    out
}

fn dedup_strings(v: &Vec<String>) -> (r: Vec<String>)
    ensures
        r.deep_view() == dedup(v.deep_view()),
{
    let mut out: Vec<String> = Vec::new();
    let mut i: usize = 0;
    while i < v.len()
        invariant
            i <= v.len(),
            out.deep_view() == dedup(v.deep_view().take(i as int)),
        decreases v.len() - i,
    {
        assert(v.deep_view().take(i + 1).drop_last() =~= v.deep_view().take(i as int));
        let ghost before = out.deep_view();
        if !contains_string(&out, v[i].as_str()) {
            out.push(v[i].clone());
            assert(out.deep_view() =~= before + seq![v.deep_view()[i as int]]);
        } else {
            assert(before + Seq::<Seq<char>>::empty() =~= before);
        }
        i += 1;
    }
    assert(v.deep_view().take(i as int) =~= v.deep_view());
    out
}

impl SkillResolver {
    /// Finds the `/name` commands in the user's text blocks (file contents are not
    /// scanned), each name once in order of first appearance, and renders the prompt of
    /// each named skill. A name that no skill carries is an error.
    pub fn resolve(user_input: &[ContentBlock], skills: &Vec<SkillDefinition>, origin_user_seq: u64) -> (r: Result<ResolvedTurnInput, AgentError>)
        ensures
            ({
                let d = dedup(block_names(blocks_view(user_input@)));
                match r {
                    Ok(res) => {
                        &&& forall|i: int| 0 <= i < d.len() ==> skill_index(skills@, #[trigger] d[i]) is Some
                        &&& res.invoked_skill_names.deep_view() == d
                        &&& res.augmentation.origin_user_seq == origin_user_seq
                        &&& res.augmentation.skill_injections@.len() == d.len()
                        &&& forall|i: int| 0 <= i < d.len() ==> injection_for(
                            #[trigger] res.augmentation.skill_injections@[i],
                            skills@,
                            d[i],
                        )
                    },
                    Err(e) => exists|i: int| {
                        &&& #[trigger] first_missing(skills@, d, i)
                        &&& e.code == AgentErrorCode::SkillNotFound
                        &&& e.message@ == "skill `"@ + d[i] + "` is not registered"@
                        &&& !e.retryable
                    },
                }
            }),
    {
        let names = dedup_strings(&collect_names(user_input));
        resolve_names(&names, skills, origin_user_seq)
    }
}

fn make_injection(skill: &SkillDefinition) -> (r: ResolvedSkillInjection)
    ensures
        r.skill_name@ == skill.name@,
        r.rendered_xml@ == skill_xml(skill.name@, skill.prompt@),
{
    let mut xml = concat3("<skill name=\"", skill.name.as_str(), "\">\n");
    xml.append(skill.prompt.as_str());
    xml.append("\n</skill>");
    ResolvedSkillInjection { skill_name: skill.name.clone(), rendered_xml: xml }
}

/// Looks up each name in turn; the first name that no skill carries is an error.
fn resolve_names(names: &Vec<String>, skills: &Vec<SkillDefinition>, origin_user_seq: u64) -> (r: Result<ResolvedTurnInput, AgentError>)
    ensures
        ({
            let d = names.deep_view();
            match r {
                Ok(res) => {
                    &&& forall|i: int| 0 <= i < d.len() ==> skill_index(skills@, #[trigger] d[i]) is Some
                    &&& res.invoked_skill_names.deep_view() == d
                    &&& res.augmentation.origin_user_seq == origin_user_seq
                    &&& res.augmentation.skill_injections@.len() == d.len()
                    &&& forall|i: int| 0 <= i < d.len() ==> injection_for(
                        #[trigger] res.augmentation.skill_injections@[i],
                        skills@,
                        d[i],
                    )
                },
                Err(e) => exists|i: int| {
                    &&& #[trigger] first_missing(skills@, d, i)
                    &&& e.code == AgentErrorCode::SkillNotFound
                    &&& e.message@ == "skill `"@ + d[i] + "` is not registered"@
                    &&& !e.retryable
                },
            }
        }),
    {
        let ghost d = names.deep_view();
        let mut invoked: Vec<String> = Vec::new();
        let mut injections: Vec<ResolvedSkillInjection> = Vec::new();
        let mut i: usize = 0;
        while i < names.len()
            invariant
                i <= names.len(),
                d == names.deep_view(),
                invoked.deep_view() == d.take(i as int),
                injections@.len() == i,
                forall|j: int| 0 <= j < i ==> skill_index(skills@, #[trigger] d[j]) is Some,
                forall|j: int| 0 <= j < i ==> injection_for(#[trigger] injections@[j], skills@, d[j]),
            decreases names.len() - i,
        {
            assert(d[i as int] == names@[i as int]@);
            match find_skill(skills, names[i].as_str()) {
                None => {
                    let e = AgentError::new(
                        AgentErrorCode::SkillNotFound,
                        concat3("skill `", names[i].as_str(), "` is not registered"),
                    );
                    assert(first_missing(skills@, d, i as int));
                    assert(e.message@ == "skill `"@ + d[i as int] + "` is not registered"@);
                    return Err(e);
                },
                Some(k) => {
                    let skill = &skills[k];
                    let ghost before = invoked.deep_view();
                    invoked.push(skill.name.clone());
                    assert(invoked.deep_view() =~= before.push(d[i as int]));
                    assert(d.take(i + 1) =~= d.take(i as int).push(d[i as int]));
                    let inj = make_injection(skill);
                    assert(injection_for(inj, skills@, d[i as int]));
                    injections.push(inj);
                },
            }
            i += 1;
        }
        assert(d.take(i as int) =~= d);
        Ok(ResolvedTurnInput {
            invoked_skill_names: invoked,
            augmentation: TurnAugmentation { origin_user_seq, skill_injections: injections },
        })
}

/// The skills a turn invokes are each invoked once: the deduplicated names are distinct.
pub proof fn lemma_invoked_skills_distinct(s: Seq<Seq<char>>)
    ensures
        dedup(s).no_duplicates(),
    decreases s.len(),
{
    if s.len() > 0 {
        lemma_invoked_skills_distinct(s.drop_last());
        let front = dedup(s.drop_last());
        if !front.contains(s.last()) {
            let all = dedup(s);
            assert(all =~= front.push(s.last()));
            assert forall|i: int, j: int| 0 <= i < all.len() && 0 <= j < all.len() && i != j implies all[i] != all[j] by {
                if i == front.len() {
                    assert(all[j] == front[j]);
                } else if j == front.len() {
                    assert(all[i] == front[i]);
                } else {
                    assert(all[i] == front[i] && all[j] == front[j]);
                }
            }
        } else {
            assert(dedup(s) =~= front);
        }
    }
}

/// The skill names of words read one after the other are those of each, in order.
proof fn lemma_word_names_concat(x: Seq<Seq<char>>, y: Seq<Seq<char>>)
    ensures
        word_names(x + y) == word_names(x) + word_names(y),
    decreases y.len(),
{
    if y.len() == 0 {
        assert(x + y =~= x);
        assert(word_names(x) + word_names(y) =~= word_names(x));
    } else {
        lemma_word_names_concat(x, y.drop_last());
        assert((x + y).drop_last() =~= x + y.drop_last());
        assert((x + y).last() == y.last());
        let tail = match invoked_name(y.last()) {
            Some(n) => seq![n],
            None => Seq::<Seq<char>>::empty(),
        };
        assert(word_names(x) + word_names(y.drop_last()) + tail =~= word_names(x) + (word_names(y.drop_last()) + tail));
    }
}

/// The names a single text block invokes are those of its words.
proof fn lemma_single_text_names(t: Seq<char>)
    ensures
        block_names(seq![BlockView::Text { text: t }]) == word_names(words(t)),
{
    let bs = seq![BlockView::Text { text: t }];
    assert(bs.drop_last() =~= Seq::<BlockView>::empty());
    assert(block_names(bs.drop_last()) == Seq::<Seq<char>>::empty());
    assert(bs.last() == BlockView::Text { text: t });
    assert(Seq::<Seq<char>>::empty() + word_names(words(t)) =~= word_names(words(t)));
}

/// A `/skill` command counts on every line of a text block, not only the first: the
/// names a text invokes when a line feed joins `a` and `b` are the names of `a`
/// followed by those of `b`.
pub proof fn lemma_names_on_every_line(a: Seq<char>, b: Seq<char>)
    ensures
        block_names(seq![BlockView::Text { text: a + "\n"@ + b }]) == block_names(seq![BlockView::Text { text: a }])
            + block_names(seq![BlockView::Text { text: b }]),
{
    reveal_strlit("\n");
    let t = a + "\n"@ + b;
    assert(t =~= a + seq!['\n'] + b);
    lemma_words_at_whitespace(a, '\n', b);
    lemma_word_names_concat(words(a), words(b));
    lemma_single_text_names(t);
    lemma_single_text_names(a);
    lemma_single_text_names(b);
}

} // verus!
