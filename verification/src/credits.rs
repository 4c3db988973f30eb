//! The credits screen: the sections of the credits file laid out as a tree
//! of interface nodes, section titles first, nested up to a depth limit.

use vstd::prelude::*;
use vstd::string::StringExecFns;

verus! {

/// The deepest level at which sections are shown; deeper ones are left out.
pub const REC_LEVEL_LIMIT: u8 = 3;

/// A person and what they did.
#[derive(Debug, Clone)]
pub struct SimpleEntry {
    pub role: String,
    pub name: String,
}

/// What a section holds.
#[derive(Debug)]
pub enum SectionEntry {
    Subsections(Vec<CreditSection>),
    RoleList(Vec<SimpleEntry>),
    Verbatim(String),
}

/// A titled section of the credits.
#[derive(Debug)]
pub struct CreditSection {
    pub title: String,
    pub content: SectionEntry,
}

/// The credits, as read from a credits file.
#[derive(Debug)]
pub struct CreditsAsset {
    pub content: Vec<CreditSection>,
}

/// The text `s` in upper case, as `str::to_uppercase` gives it.
pub uninterp spec fn uppercase(s: Seq<char>) -> Seq<char>;

/// Calls `str::to_uppercase`; claimed: the result is a function of the text
/// alone, named `uppercase`. What the Unicode case mapping gives for each
/// character is not stated.
#[verifier::external_body]
fn to_uppercase(s: &str) -> (r: String)
    ensures
        r@ == uppercase(s@),
{
    s.to_uppercase()
}

/// What an interface node of the credits is.
#[derive(Debug)]
pub enum CreditNodeKind {
    /// The scrolling root that holds the top-level sections.
    Root,
    /// A section, at the given nesting level; its title and content follow.
    Section { level: u8 },
    /// The title of a section at the given level.
    Title { level: u8, text: String },
    /// The row of a role list: its role column, separator column and name
    /// column follow, in it.
    RoleRow,
    /// The roles of a role list, one text each, in order, aligned right.
    RoleColumn { roles: Vec<String> },
    /// The empty column between roles and names, `width` pixels wide and
    /// `height` pixels high (`ROW_HEIGHT` per entry).
    Separator { width: u32, height: u128 },
    /// The names of a role list, one text each, in order, aligned left.
    NameColumn { names: Vec<String> },
    /// A text shown as it is.
    Verbatim { text: String },
}

/// An interface node, with the position of the node it is in.
#[derive(Debug)]
pub struct CreditNode {
    pub parent: Option<usize>,
    pub kind: CreditNodeKind,
}

/// `CreditNodeKind` with its texts as sequences.
pub enum CreditNodeKindV {
    Root,
    Section { level: u8 },
    Title { level: u8, text: Seq<char> },
    RoleRow,
    RoleColumn { roles: Seq<Seq<char>> },
    Separator { width: u32, height: u128 },
    NameColumn { names: Seq<Seq<char>> },
    Verbatim { text: Seq<char> },
}

/// `CreditNode` with its texts as sequences.
pub struct CreditNodeV {
    pub parent: Option<usize>,
    pub kind: CreditNodeKindV,
}

impl CreditNodeV {
    /// Whether the node, at position `pos`, is in no node or in one placed
    /// before it.
    pub open spec fn parent_before(self, pos: int) -> bool {
        match self.parent {
            Some(p) => p < pos,
            None => true,
        }
    }
}

/// The texts of a list of strings.
pub open spec fn texts(s: Seq<String>) -> Seq<Seq<char>> {
    s.map_values(|t: String| t@)
}

impl View for CreditNode {
    type V = CreditNodeV;

    open spec fn view(&self) -> CreditNodeV {
        CreditNodeV {
            parent: self.parent,
            kind: match self.kind {
                CreditNodeKind::Root => CreditNodeKindV::Root,
                CreditNodeKind::Section { level } => CreditNodeKindV::Section { level },
                CreditNodeKind::Title { level, text } => CreditNodeKindV::Title {
                    level,
                    text: text@,
                },
                CreditNodeKind::RoleRow => CreditNodeKindV::RoleRow,
                CreditNodeKind::RoleColumn { roles } => CreditNodeKindV::RoleColumn {
                    roles: texts(roles@),
                },
                CreditNodeKind::Separator { width, height } => CreditNodeKindV::Separator {
                    width,
                    height,
                },
                CreditNodeKind::NameColumn { names } => CreditNodeKindV::NameColumn {
                    names: texts(names@),
                },
                CreditNodeKind::Verbatim { text } => CreditNodeKindV::Verbatim { text: text@ },
            },
        }
    }
}

/// The views of a list of nodes.
pub open spec fn credit_nodes_view(nodes: Seq<CreditNode>) -> Seq<CreditNodeV> {
    nodes.map_values(|n: CreditNode| n@)
}

/// The title of a section at `level`: a top-level title is shown in upper
/// case between two dots.
pub open spec fn title_text(level: u8, title: Seq<char>) -> Seq<char> {
    if level == 0 {
        "· "@ + uppercase(title) + " ·"@
    } else {
        title
    }
}

/// The width of the column between roles and names, in pixels.
pub const SEPARATOR_WIDTH: u32 = 50;

/// The height of one entry of a role list, in pixels.
pub const ROW_HEIGHT: u128 = 25;

/// The nodes of a role list in `parent`, its row going at position `row`:
/// the row, then in it the role column, the separator column (as high as
/// the entries) and the name column.
pub open spec fn role_list_nodes(x: Seq<SimpleEntry>, parent: Option<usize>, row: usize) -> Seq<
    CreditNodeV,
> {
    seq![
        CreditNodeV { parent, kind: CreditNodeKindV::RoleRow },
        CreditNodeV {
            parent: Some(row),
            kind: CreditNodeKindV::RoleColumn { roles: x.map_values(|e: SimpleEntry| e.role@) },
        },
        CreditNodeV {
            parent: Some(row),
            kind: CreditNodeKindV::Separator {
                width: SEPARATOR_WIDTH,
                height: (ROW_HEIGHT * x.len()) as u128,
            },
        },
        CreditNodeV {
            parent: Some(row),
            kind: CreditNodeKindV::NameColumn { names: x.map_values(|e: SimpleEntry| e.name@) },
        },
    ]
}

/// The nodes of a section at `level`, in `parent`, its first node going at
/// position `base`: the section, its title, then its content; nothing
/// past the depth limit.
pub open spec fn plan_section(s: CreditSection, level: u8, parent: Option<usize>, base: nat) -> Seq<
    CreditNodeV,
>
    decreases s, 0int,
{
    if level > REC_LEVEL_LIMIT {
        Seq::empty()
    } else {
        let me = Some(base as usize);
        let head = seq![
            CreditNodeV { parent, kind: CreditNodeKindV::Section { level } },
            CreditNodeV {
                parent: me,
                kind: CreditNodeKindV::Title { level, text: title_text(level, s.title@) },
            },
        ];
        match s.content {
            SectionEntry::RoleList(x) => head + role_list_nodes(x@, me, (base + 2) as usize),
            SectionEntry::Verbatim(t) => head + seq![
                CreditNodeV { parent: me, kind: CreditNodeKindV::Verbatim { text: t@ } },
            ],
            SectionEntry::Subsections(v) => head + plan_sections(
                v@,
                (level + 1) as u8,
                me,
                base + 2,
                0,
            ),
        }
    }
}

/// The nodes of the sections from position `i` on, at `level`, in
/// `parent`, their first node going at position `base`.
pub open spec fn plan_sections(
    ss: Seq<CreditSection>,
    level: u8,
    parent: Option<usize>,
    base: nat,
    i: int,
) -> Seq<CreditNodeV>
    decreases ss, ss.len() - i,
{
    if i < 0 || i >= ss.len() {
        Seq::empty()
    } else {
        let first = plan_section(ss[i], level, parent, base);
        first + plan_sections(ss, level, parent, base + first.len(), i + 1)
    }
}

/// The nodes of the credits: the root, then the top-level sections in it.
pub open spec fn plan_credits(c: CreditsAsset) -> Seq<CreditNodeV> {
    seq![CreditNodeV { parent: None, kind: CreditNodeKindV::Root }] + plan_sections(
        c.content@,
        0,
        Some(0),
        1,
        0,
    )
}

/// Each node of a section is in a node that comes before it: where the
/// section is in a node before `base`, every node's container is a node
/// placed earlier.
pub proof fn lemma_plan_section_parents(s: CreditSection, level: u8, parent: Option<usize>, base: nat)
    requires
        parent matches Some(p) ==> p < base,
        base + plan_section(s, level, parent, base).len() <= usize::MAX + 1,
    ensures
        forall|i: int|
            0 <= i < plan_section(s, level, parent, base).len() ==> (#[trigger] plan_section(
                s,
                level,
                parent,
                base,
            )[i]).parent_before(base + i),
        parent is Some ==> forall|i: int|
            0 <= i < plan_section(s, level, parent, base).len() ==> (#[trigger] plan_section(
                s,
                level,
                parent,
                base,
            )[i]).parent is Some,
    decreases s, 0int,
{
    if level <= REC_LEVEL_LIMIT {
        match s.content {
            SectionEntry::Subsections(v) => {
                let sub = plan_sections(v@, (level + 1) as u8, Some(base as usize), base + 2, 0);
                assert(plan_section(s, level, parent, base).len() == 2 + sub.len());
                lemma_plan_sections_parents(v@, (level + 1) as u8, Some(base as usize), base + 2, 0);
            },
            _ => {},
        }
    }
}

/// Each node of a list of sections is in a node that comes before it.
pub proof fn lemma_plan_sections_parents(
    ss: Seq<CreditSection>,
    level: u8,
    parent: Option<usize>,
    base: nat,
    i: int,
)
    requires
        parent matches Some(p) ==> p < base,
        base + plan_sections(ss, level, parent, base, i).len() <= usize::MAX + 1,
    ensures
        forall|k: int|
            0 <= k < plan_sections(ss, level, parent, base, i).len() ==> (#[trigger] plan_sections(
                ss,
                level,
                parent,
                base,
                i,
            )[k]).parent_before(base + k),
        parent is Some ==> forall|k: int|
            0 <= k < plan_sections(ss, level, parent, base, i).len() ==> (#[trigger] plan_sections(
                ss,
                level,
                parent,
                base,
                i,
            )[k]).parent is Some,
    decreases ss, ss.len() - i,
{
    if 0 <= i < ss.len() {
        let first = plan_section(ss[i], level, parent, base);
        let rest = plan_sections(ss, level, parent, base + first.len(), i + 1);
        assert(plan_sections(ss, level, parent, base, i) == first + rest);
        lemma_plan_section_parents(ss[i], level, parent, base);
        lemma_plan_sections_parents(ss, level, parent, base + first.len(), i + 1);
        assert forall|k: int| 0 <= k < first.len() + rest.len() implies (#[trigger] (first
            + rest)[k]).parent_before(base + k) by {
            if k < first.len() {
                assert((first + rest)[k] == first[k]);
            } else {
                assert((first + rest)[k] == rest[k - first.len()]);
            }
        }
        if parent is Some {
            assert forall|k: int| 0 <= k < first.len() + rest.len() implies (#[trigger] (first
                + rest)[k]).parent is Some by {
                if k < first.len() {
                    assert((first + rest)[k] == first[k]);
                } else {
                    assert((first + rest)[k] == rest[k - first.len()]);
                }
            }
        }
    }
}

/// The credits form a tree laid out in order: the root comes first, and
/// every other node is in a node that comes before it.
pub proof fn law_credit_nodes_follow_their_parents(c: CreditsAsset)
    requires
        plan_credits(c).len() <= usize::MAX,
    ensures
        plan_credits(c)[0].parent is None,
        forall|i: int|
            0 < i < plan_credits(c).len() ==> (#[trigger] plan_credits(c)[i]).parent is Some
                && plan_credits(c)[i].parent_before(i),
{
    let rest = plan_sections(c.content@, 0, Some(0), 1, 0);
    let head = seq![CreditNodeV { parent: None, kind: CreditNodeKindV::Root }];
    assert(plan_credits(c) == head + rest);
    lemma_plan_sections_parents(c.content@, 0, Some(0), 1, 0);
    assert forall|i: int| 0 < i < plan_credits(c).len() implies (#[trigger] plan_credits(
        c,
    )[i]).parent is Some && plan_credits(c)[i].parent_before(i) by {
        assert(plan_credits(c)[i] == rest[i - 1]);
    }
}

impl CreditsAsset {
    /// The interface nodes of the credits, each after the node it is in.
    pub fn build(&self) -> (r: Vec<CreditNode>)
        ensures
            credit_nodes_view(r@) == plan_credits(*self),
    {
        let mut out: Vec<CreditNode> = Vec::new();
        out.push(CreditNode { parent: None, kind: CreditNodeKind::Root });
        proof {
            assert(credit_nodes_view(out@) =~= seq![
                CreditNodeV { parent: None, kind: CreditNodeKindV::Root },
            ]);
        }
        Self::build_sections(&mut out, 0, Some(0), &self.content);
        proof {
            let now = credit_nodes_view(out@);
            assert(now =~= now.take(1) + now.skip(1));
        }
        out
    }

    /// Adds the nodes of a list of sections at `rec_level`, in `parent`.
    fn build_sections(
        out: &mut Vec<CreditNode>,
        rec_level: u8,
        parent: Option<usize>,
        sections: &Vec<CreditSection>,
    )
        requires
            rec_level <= REC_LEVEL_LIMIT + 1,
        ensures
            final(out)@.len() >= old(out)@.len(),
            credit_nodes_view(final(out)@).take(old(out)@.len() as int) == credit_nodes_view(
                old(out)@,
            ),
            credit_nodes_view(final(out)@).skip(old(out)@.len() as int) == plan_sections(
                sections@,
                rec_level,
                parent,
                old(out)@.len() as nat,
                0,
            ),
        decreases sections, 1int,
    {
        let ghost start = credit_nodes_view(out@);
        proof {
            assert(credit_nodes_view(out@).skip(start.len() as int) =~= Seq::<CreditNodeV>::empty());
            assert(credit_nodes_view(out@).take(start.len() as int) =~= start);
        }
        let mut i: usize = 0;
        while i < sections.len()
            invariant
                i <= sections@.len(),
                rec_level <= REC_LEVEL_LIMIT + 1,
                start == credit_nodes_view(old(out)@),
                out@.len() >= start.len(),
                credit_nodes_view(out@).take(start.len() as int) == start,
                plan_sections(sections@, rec_level, parent, start.len() as nat, 0)
                    == credit_nodes_view(out@).skip(start.len() as int) + plan_sections(
                    sections@,
                    rec_level,
                    parent,
                    out@.len() as nat,
                    i as int,
                ),
            decreases sections@.len() - i,
        {
            let ghost before = credit_nodes_view(out@);
            proof {
                assert(decreases_to!(*sections => sections@[i as int]));
            }
            Self::build_content_elem(out, rec_level, parent, &sections[i]);
            proof {
                let now = credit_nodes_view(out@);
                let first = now.skip(before.len() as int);
                assert(now =~= before + first) by {
                    assert forall|k: int| 0 <= k < now.len() implies #[trigger] now[k] == (before
                        + first)[k] by {
                        if k < before.len() {
                            assert(now.take(before.len() as int)[k] == now[k]);
                        }
                    }
                }
                assert(now.take(start.len() as int) =~= start) by {
                    assert forall|k: int| 0 <= k < start.len() implies #[trigger] now.take(
                        start.len() as int,
                    )[k] == start[k] by {
                        assert(before.take(start.len() as int)[k] == start[k]);
                    }
                }
                assert(now.skip(start.len() as int) =~= before.skip(start.len() as int) + first);
                let rest = plan_sections(sections@, rec_level, parent, out@.len() as nat, i + 1);
                assert(before.skip(start.len() as int) + (first + rest) =~= (before.skip(
                    start.len() as int,
                ) + first) + rest);
            }
            i = i + 1;
        }
        proof {
            let now = credit_nodes_view(out@);
            assert(now.skip(start.len() as int) + Seq::<CreditNodeV>::empty() =~= now.skip(
                start.len() as int,
            ));
        }
    }

    /// Adds the nodes of a section at `rec_level`, in `parent`: nothing past
    /// the depth limit.
    fn build_content_elem(
        out: &mut Vec<CreditNode>,
        rec_level: u8,
        parent: Option<usize>,
        section: &CreditSection,
    )
        requires
            rec_level <= REC_LEVEL_LIMIT + 1,
        ensures
            final(out)@.len() >= old(out)@.len(),
            credit_nodes_view(final(out)@).take(old(out)@.len() as int) == credit_nodes_view(
                old(out)@,
            ),
            credit_nodes_view(final(out)@).skip(old(out)@.len() as int) == plan_section(
                *section,
                rec_level,
                parent,
                old(out)@.len() as nat,
            ),
        decreases section, 0int,
    {
        let ghost start = credit_nodes_view(out@);
        if rec_level > REC_LEVEL_LIMIT {
            proof {
                assert(credit_nodes_view(out@).skip(start.len() as int) =~= Seq::<
                    CreditNodeV,
                >::empty());
                assert(credit_nodes_view(out@).take(start.len() as int) =~= start);
            }
            return ;
        }
        let me = out.len();
        let text = if rec_level == 0 {
            let mut t = String::new();
            t.append("· ");
            let upper = to_uppercase(section.title.as_str());
            t.append(upper.as_str());
            t.append(" ·");
            t
        } else {
            section.title.clone()
        };
        let ghost text_v = text@;
        out.push(CreditNode { parent, kind: CreditNodeKind::Section { level: rec_level } });
        out.push(CreditNode { parent: Some(me), kind: CreditNodeKind::Title { level: rec_level, text } });
        let ghost head = seq![
            CreditNodeV { parent, kind: CreditNodeKindV::Section { level: rec_level } },
            CreditNodeV {
                parent: Some(me),
                kind: CreditNodeKindV::Title {
                    level: rec_level,
                    text: title_text(rec_level, section.title@),
                },
            },
        ];
        proof {
            assert(text_v == title_text(rec_level, section.title@));
            assert(credit_nodes_view(out@) =~= start + head);
        }
        match &section.content {
            SectionEntry::RoleList(x) => {
                let mut roles: Vec<String> = Vec::new();
                let mut names: Vec<String> = Vec::new();
                let mut k: usize = 0;
                while k < x.len()
                    invariant
                        k <= x@.len(),
                        roles@.len() == k,
                        names@.len() == k,
                        forall|j: int| 0 <= j < k ==> (#[trigger] roles@[j])@ == x@[j].role@,
                        forall|j: int| 0 <= j < k ==> (#[trigger] names@[j])@ == x@[j].name@,
                    decreases x@.len() - k,
                {
                    roles.push(x[k].role.clone());
                    names.push(x[k].name.clone());
                    k = k + 1;
                }
                proof {
                    assert(texts(roles@) =~= x@.map_values(|e: SimpleEntry| e.role@));
                    assert(texts(names@) =~= x@.map_values(|e: SimpleEntry| e.name@));
                }
                let row = out.len();
                let n = x.len() as u128;
                assert(n <= u64::MAX);
                let height = ROW_HEIGHT * n;
                let ghost nodes = role_list_nodes(x@, Some(me), row);
                out.push(CreditNode { parent: Some(me), kind: CreditNodeKind::RoleRow });
                out.push(CreditNode { parent: Some(row), kind: CreditNodeKind::RoleColumn { roles } });
                out.push(
                    CreditNode {
                        parent: Some(row),
                        kind: CreditNodeKind::Separator { width: SEPARATOR_WIDTH, height },
                    },
                );
                out.push(CreditNode { parent: Some(row), kind: CreditNodeKind::NameColumn { names } });
                proof {
                    assert(credit_nodes_view(out@) =~= start + head + nodes);
                    assert(credit_nodes_view(out@).skip(start.len() as int) =~= head + nodes);
                    assert(credit_nodes_view(out@).take(start.len() as int) =~= start);
                }
            },
            SectionEntry::Verbatim(t) => {
                out.push(
                    CreditNode { parent: Some(me), kind: CreditNodeKind::Verbatim { text: t.clone() } },
                );
                proof {
                    let node = CreditNodeV {
                        parent: Some(me),
                        kind: CreditNodeKindV::Verbatim { text: t@ },
                    };
                    assert(credit_nodes_view(out@) =~= start + head + seq![node]);
                    assert(credit_nodes_view(out@).skip(start.len() as int) =~= head + seq![node]);
                    assert(credit_nodes_view(out@).take(start.len() as int) =~= start);
                }
            },
            SectionEntry::Subsections(v) => {
                let ghost mid = credit_nodes_view(out@);
                proof {
                    assert(decreases_to!(*section => *v));
                }
                Self::build_sections(out, rec_level + 1, Some(me), v);
                proof {
                    let now = credit_nodes_view(out@);
                    let sub = now.skip(mid.len() as int);
                    assert(now =~= mid + sub) by {
                        assert forall|k: int| 0 <= k < now.len() implies #[trigger] now[k] == (mid
                            + sub)[k] by {
                            if k < mid.len() {
                                assert(now.take(mid.len() as int)[k] == now[k]);
                            }
                        }
                    }
                    assert(now.skip(start.len() as int) =~= head + sub);
                    assert(now.take(start.len() as int) =~= start);
                }
            },
        }
    }
}

} // verus!
