//! `netflow_version()`: the worker's version string.

use arrow_schema::DataType;
use vstd::prelude::*;

use crate::columns::{
    batch_rows, leaf_type, row_count, text_cells, type_desc, Batch, Cell, Leaf, TypeView,
};
use crate::meta::{object_tags, object_tags_view, one_example, push_tag, DocView, FunctionDoc};
use crate::{version, VERSION};

verus! {

/// The function's name.
pub const NAME: &'static str = "netflow_version";

/// The function's title.
pub const TITLE: &'static str = "NetFlow Worker Version";

/// The function in prose.
pub const DOC_LLM: &'static str =
    "Return the version string of the running netflow worker binary (the worker's own build \
    version — the crate's Cargo version, MAJOR.MINOR.PATCH — not the SDK/protocol \
    version). Argument-free and deterministic: always the same single VARCHAR (never NULL) \
    for a given build. Useful for diagnostics and confirming which build is attached.";

/// The function in short.
pub const DOC_MD: &'static str =
    "Return the netflow worker version string, e.g. `netflow_version()` → '0.1.0'. \
    Argument-free and deterministic; a single semver VARCHAR.";

/// The function's keywords.
pub const KEYWORDS: &'static str =
    "version, build version, netflow_version, diagnostics, worker version, semver";

/// The function in one line.
pub const DESCRIPTION: &'static str = "Returns the netflow worker version string";

/// Examples that can be run.
pub const RUNNABLE: &'static str =
    "[{\"description\":\"Return the worker version string.\",\"sql\":\"SELECT \
    netflow.main.netflow_version() AS version\"}]";

/// An example.
pub const EXAMPLE_SQL: &'static str = "SELECT netflow.main.netflow_version();";

/// What the example shows.
pub const EXAMPLE: &'static str = "Return the netflow worker version string.";

/// What the function says of itself.
pub open spec fn doc_view() -> DocView {
    DocView {
        description: DESCRIPTION@,
        examples: seq![(EXAMPLE_SQL@, EXAMPLE@)],
        tags: object_tags_view(TITLE@, DOC_LLM@, DOC_MD@, KEYWORDS@).push(
            ("vgi.category"@, "probe"@),
        ).push(
            ("vgi.executable_examples"@, RUNNABLE@),
        ),
    }
}

/// The worker's version in every row.
pub open spec fn build_cells(n: nat) -> Seq<Cell> {
    Seq::new(n, |i: int| Cell::Text(VERSION@))
}

/// The scalar function `netflow_version`.
#[derive(Clone, Copy, Debug)]
pub struct NetflowVersion;

impl NetflowVersion {
    /// The function's name.
    pub fn name(&self) -> (r: &'static str)
        ensures
            r@ == NAME@,
    {
        NAME
    }

    /// The type of the result.
    pub fn return_type(&self) -> (r: DataType)
        ensures
            type_desc(r) == TypeView::Utf8,
    {
        leaf_type(Leaf::Utf8)
    }

    /// What the function says of itself.
    pub fn metadata(&self) -> (r: FunctionDoc)
        ensures
            r@ == doc_view(),
    {
        let mut tags = object_tags(TITLE, DOC_LLM, DOC_MD, KEYWORDS);
        push_tag(&mut tags, "vgi.category", "probe");
        push_tag(&mut tags, "vgi.executable_examples", RUNNABLE);
        FunctionDoc {
            description: DESCRIPTION.to_string(),
            examples: one_example(EXAMPLE_SQL, EXAMPLE),
            tags,
        }
    }

    /// The worker's version, once per row of the batch.
    pub fn build_versions(&self, batch: &Batch) -> (v: Vec<Option<String>>)
        ensures
            text_cells(v@) == build_cells(batch_rows(*batch)),
    {
        let n: usize = row_count(batch);
        let mut v: Vec<Option<String>> = Vec::new();
        while v.len() < n
            invariant
                v@.len() <= n,
                forall|i: int|
                    0 <= i < v@.len() ==> (#[trigger] v@[i]) is Some && (v@[i]->0)@ == VERSION@,
            decreases n - v.len(),
        {
            v.push(Some(version().to_string()));
        }
        assert(text_cells(v@) =~= build_cells(n as nat));
        v
    }
}

} // verus!
