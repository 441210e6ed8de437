//! The table of descriptors computed ahead of time, keyed by canonical id.
use vstd::prelude::*;
use crate::text::str_eq;

verus! {

/// One precomputed descriptor, by kind. Models, fragments and slices follow the
/// direct protocol, operations the registered one. The operation kinds carry their whole
/// descriptor serialized as JSON, to be embedded verbatim.
#[derive(Debug)]
pub enum BuilderArtifactElement {
    Model { typename: String },
    Fragment { typename: String },
    Slice { operation_type: String },
    Operation { operation_name: String, prebuild_json: String },
    InlineOperation { operation_name: String, prebuild_json: String },
}

pub enum ElementView {
    Model { typename: Seq<char> },
    Fragment { typename: Seq<char> },
    Slice { operation_type: Seq<char> },
    Operation { operation_name: Seq<char>, prebuild_json: Seq<char> },
    InlineOperation { operation_name: Seq<char>, prebuild_json: Seq<char> },
}

impl View for BuilderArtifactElement {
    type V = ElementView;

    open spec fn view(&self) -> ElementView {
        match self {
            BuilderArtifactElement::Model { typename } => ElementView::Model { typename: typename@ },
            BuilderArtifactElement::Fragment { typename } => ElementView::Fragment {
                typename: typename@,
            },
            BuilderArtifactElement::Slice { operation_type } => ElementView::Slice {
                operation_type: operation_type@,
            },
            BuilderArtifactElement::Operation { operation_name, prebuild_json } =>
                ElementView::Operation {
                operation_name: operation_name@,
                prebuild_json: prebuild_json@,
            },
            BuilderArtifactElement::InlineOperation { operation_name, prebuild_json } =>
                ElementView::InlineOperation {
                operation_name: operation_name@,
                prebuild_json: prebuild_json@,
            },
        }
    }
}

impl Clone for BuilderArtifactElement {
    fn clone(&self) -> (r: Self)
        ensures
            r@ == self@,
    {
        match self {
            BuilderArtifactElement::Model { typename } => BuilderArtifactElement::Model {
                typename: typename.clone(),
            },
            BuilderArtifactElement::Fragment { typename } => BuilderArtifactElement::Fragment {
                typename: typename.clone(),
            },
            BuilderArtifactElement::Slice { operation_type } => BuilderArtifactElement::Slice {
                operation_type: operation_type.clone(),
            },
            BuilderArtifactElement::Operation { operation_name, prebuild_json } =>
                BuilderArtifactElement::Operation {
                operation_name: operation_name.clone(),
                prebuild_json: prebuild_json.clone(),
            },
            BuilderArtifactElement::InlineOperation { operation_name, prebuild_json } =>
                BuilderArtifactElement::InlineOperation {
                operation_name: operation_name.clone(),
                prebuild_json: prebuild_json.clone(),
            },
        }
    }
}

/// One row of the table.
#[derive(Debug)]
pub struct ArtifactEntry {
    pub id: String,
    pub element: BuilderArtifactElement,
}

/// The artifact table: canonical id to descriptor. Read-only once built.
#[derive(Debug)]
pub struct BuilderArtifact {
    pub entries: Vec<ArtifactEntry>,
}

impl View for BuilderArtifact {
    type V = Seq<(Seq<char>, ElementView)>;

    open spec fn view(&self) -> Seq<(Seq<char>, ElementView)> {
        self.entries@.map_values(|e: ArtifactEntry| (e.id@, e.element@))
    }
}

/// The descriptor of the first row with the given id.
pub open spec fn artifact_lookup(rows: Seq<(Seq<char>, ElementView)>, id: Seq<char>) -> Option<
    ElementView,
>
    decreases rows.len(),
{
    if rows.len() == 0 {
        None
    } else if rows[0].0 == id {
        Some(rows[0].1)
    } else {
        artifact_lookup(rows.subrange(1, rows.len() as int), id)
    }
}

pub open spec fn opt_element_view(o: Option<&BuilderArtifactElement>) -> Option<ElementView> {
    match o {
        Some(e) => Some(e@),
        None => None,
    }
}

impl BuilderArtifact {
    pub fn new() -> (r: BuilderArtifact)
        ensures
            r@.len() == 0,
    {
        BuilderArtifact { entries: Vec::new() }
    }

    /// Adds a row at the end; a row already present under the same id still wins.
    pub fn insert(&mut self, id: String, element: BuilderArtifactElement)
        ensures
            final(self)@ == old(self)@.push((id@, element@)),
    {
        self.entries.push(ArtifactEntry { id, element });
        proof {
            assert(final(self)@ =~= old(self)@.push((id@, element@)));
        }
    }

    /// Looks up the descriptor for a canonical id.
    pub fn get(&self, id: &str) -> (r: Option<&BuilderArtifactElement>)
        ensures
            opt_element_view(r) == artifact_lookup(self@, id@),
    {
        let ghost rows = self@;
        assert(rows.subrange(0, rows.len() as int) =~= rows);
        let mut i: usize = 0;
        while i < self.entries.len()
            invariant
                rows == self@,
                i <= rows.len(),
                artifact_lookup(rows, id@) == artifact_lookup(
                    rows.subrange(i as int, rows.len() as int),
                    id@,
                ),
            decreases rows.len() - i,
        {
            let ghost rest = rows.subrange(i as int, rows.len() as int);
            assert(rest[0] == rows[i as int]);
            if str_eq(self.entries[i].id.as_str(), id) {
                return Some(&self.entries[i].element);
            }
            assert(rest.subrange(1, rest.len() as int) =~= rows.subrange(i + 1, rows.len() as int));
            i = i + 1;
        }
        None
    }
}

} // verus!
