//! Test descriptors: the identity of one build+run unit, and the order the
//! catalog lists them in.

use vstd::prelude::*;
use vstd::relations::total_ordering;
use crate::strutil::lex_le;
use crate::strutil::lemma_lex_le_antisymmetric;
use crate::strutil::lemma_lex_le_total;
use crate::strutil::lemma_lex_le_transitive;
use crate::strutil::lex_le_str;
use crate::strutil::str_eq;

verus! {

/// The optimization level a discovered example is compiled and run with.
#[derive(Clone, Copy, PartialEq, Eq, Structural, Debug)]
pub enum BuildMode {
    Debug,
    Release,
}

/// Rank used to order the two build modes of one example.
pub open spec fn mode_rank(m: BuildMode) -> int {
    match m {
        BuildMode::Debug => 0,
        BuildMode::Release => 1,
    }
}

/// The label of a build mode, as it appears in paths and log file names.
pub open spec fn mode_label(m: BuildMode) -> Seq<char> {
    match m {
        BuildMode::Debug => "debug"@,
        BuildMode::Release => "release"@,
    }
}

/// Returns the label of a build mode.
pub fn mode_str(m: BuildMode) -> (r: &'static str)
    ensures
        r@ == mode_label(m),
{
    match m {
        BuildMode::Debug => "debug",
        BuildMode::Release => "release",
    }
}

/// One test unit: a discovered example name together with the mode it is
/// built and run in. Immutable once discovered.
#[derive(Clone, Debug)]
pub struct TestDescriptor {
    pub name: String,
    pub mode: BuildMode,
}

/// The mathematical content of a descriptor: the name's characters and the
/// build mode.
pub struct DescView {
    pub name: Seq<char>,
    pub mode: BuildMode,
}

impl View for TestDescriptor {
    type V = DescView;

    open spec fn view(&self) -> DescView {
        DescView { name: self.name@, mode: self.mode }
    }
}

impl TestDescriptor {
    /// A descriptor's name is never empty.
    pub open spec fn wf(&self) -> bool {
        self.name@.len() > 0
    }
}

/// The views of a descriptor list.
pub open spec fn views_of(s: Seq<TestDescriptor>) -> Seq<DescView> {
    s.map_values(|d: TestDescriptor| d@)
}

/// Catalog order on descriptors: by name lexicographically, then by build
/// mode (debug before release).
pub open spec fn desc_le(a: DescView, b: DescView) -> bool {
    if a.name == b.name {
        mode_rank(a.mode) <= mode_rank(b.mode)
    } else {
        lex_le(a.name, b.name)
    }
}

/// The catalog order as a relation value.
pub open spec fn desc_order() -> spec_fn(DescView, DescView) -> bool {
    |a: DescView, b: DescView| desc_le(a, b)
}

/// `desc_le` is a total ordering on descriptor views.
pub proof fn lemma_desc_le_total_ordering()
    ensures
        total_ordering(desc_order()),
{
    let leq = desc_order();
    assert forall|a: DescView, b: DescView| #[trigger] leq(a, b) || #[trigger] leq(b, a) by {
        if a.name != b.name {
            lemma_lex_le_total(a.name, b.name);
        }
    }
    assert forall|a: DescView, b: DescView| #[trigger] leq(a, b) && #[trigger] leq(b, a) implies a
        == b by {
        if a.name == b.name {
            assert(mode_rank(a.mode) == mode_rank(b.mode));
            assert(a.mode == b.mode);
        } else {
            lemma_lex_le_antisymmetric(a.name, b.name);
        }
    }
    assert forall|a: DescView, b: DescView, c: DescView|
        #[trigger] leq(a, b) && #[trigger] leq(b, c) implies leq(a, c) by {
        if a.name == b.name && b.name == c.name {
        } else if a.name == b.name {
        } else if b.name == c.name {
        } else {
            lemma_lex_le_transitive(a.name, b.name, c.name);
            if a.name == c.name {
                lemma_lex_le_antisymmetric(a.name, b.name);
            }
        }
    }
}

/// Decides the catalog order between two descriptors.
pub fn desc_le_exec(a: &TestDescriptor, b: &TestDescriptor) -> (r: bool)
    ensures
        r == desc_le(a@, b@),
{
    if str_eq(a.name.as_str(), b.name.as_str()) {
        let ra: u8 = match a.mode {
            BuildMode::Debug => 0,
            BuildMode::Release => 1,
        };
        let rb: u8 = match b.mode {
            BuildMode::Debug => 0,
            BuildMode::Release => 1,
        };
        ra <= rb
    } else {
        lex_le_str(a.name.as_str(), b.name.as_str())
    }
}

} // verus!
