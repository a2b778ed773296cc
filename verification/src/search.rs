//! Building the documents of the store from a dataset.

use crate::model::{
    runway_views, Airport, AirportTemplate, AirportView, Runway, RunwayTemplate, RunwayView,
};
use vstd::prelude::*;

verus! {

/// The runways of a table, gathered under the identifier of the airport that
/// each belongs to, in the order of the table.
///
/// The groups are kept in a `hashbrown::HashMap` from identifier to runways.
/// Verus does not look inside: what the map holds is [`runway_groups`], and the
/// three functions that touch the map state their effect on it without proof.
#[verifier::external_body]
pub struct RunwayGroups {
    map: hashbrown::HashMap<String, Vec<Runway>>,
}

/// What the map inside `groups` holds: for each identifier that has a group,
/// the runways of that group in order.
pub uninterp spec fn runway_groups(groups: RunwayGroups) -> Map<Seq<char>, Seq<RunwayView>>;

/// `hashbrown::HashMap::new`: a map that holds nothing.
#[verifier::external_body]
fn groups_new() -> (groups: RunwayGroups)
    ensures
        runway_groups(groups) == (Map::<Seq<char>, Seq<RunwayView>>::empty()),
{
    RunwayGroups { map: hashbrown::HashMap::new() }
}

/// `hashbrown::HashMap::insert`: afterwards the key has the new value and all
/// other keys are as before; the value that the key had, if any, is returned.
/// Two keys are the same key when they hold the same characters.
#[verifier::external_body]
fn groups_insert(groups: &mut RunwayGroups, ident: String, runways: Vec<Runway>) -> (previous:
    Option<Vec<Runway>>)
    ensures
        runway_groups(*final(groups)) == runway_groups(*old(groups)).insert(
            ident@,
            runway_views(runways@),
        ),
        match previous {
            Some(group) => runway_groups(*old(groups)).contains_key(ident@) && runway_views(group@)
                == runway_groups(*old(groups))[ident@],
            None => !runway_groups(*old(groups)).contains_key(ident@),
        },
{
    groups.map.insert(ident, runways)
}

/// `hashbrown::HashMap::remove`: afterwards the key has no value and all other
/// keys are as before; the value that the key had, if any, is returned.
#[verifier::external_body]
fn groups_remove(groups: &mut RunwayGroups, ident: &str) -> (removed: Option<Vec<Runway>>)
    ensures
        runway_groups(*final(groups)) == runway_groups(*old(groups)).remove(ident@),
        match removed {
            Some(group) => runway_groups(*old(groups)).contains_key(ident@) && runway_views(group@)
                == runway_groups(*old(groups))[ident@],
            None => !runway_groups(*old(groups)).contains_key(ident@),
        },
{
    groups.map.remove(ident)
}

/// The test that a row of the runway table names the airport `ident`.
pub open spec fn names(ident: Seq<char>) -> spec_fn(RunwayTemplate) -> bool {
    |row: RunwayTemplate| row.airport_ident@ == ident
}

/// The runways that the rows of a table give to the airport `ident`: those of
/// the rows that name it, in the order of the table.
pub open spec fn runways_of(rows: Seq<RunwayTemplate>, ident: Seq<char>) -> Seq<RunwayView> {
    rows.filter(names(ident)).map_values(|row: RunwayTemplate| row.runway())
}

/// Whether a row of the table names the airport `ident`.
pub open spec fn has_runways(rows: Seq<RunwayTemplate>, ident: Seq<char>) -> bool {
    exists|i: int| 0 <= i < rows.len() && #[trigger] rows[i].airport_ident@ == ident
}

/// The groups of a runway table: one for each airport that a row names.
pub open spec fn grouped(rows: Seq<RunwayTemplate>) -> Map<Seq<char>, Seq<RunwayView>> {
    Map::new(
        |ident: Seq<char>| has_runways(rows, ident),
        |ident: Seq<char>| runways_of(rows, ident),
    )
}

/// One more row adds its runway to the group of the airport it names and
/// leaves every other group as it was.
pub proof fn lemma_runways_of_push(rows: Seq<RunwayTemplate>, row: RunwayTemplate, ident: Seq<char>)
    ensures
        runways_of(rows.push(row), ident) == if row.airport_ident@ == ident {
            runways_of(rows, ident).push(row.runway())
        } else {
            runways_of(rows, ident)
        },
{
    rows.lemma_filter_push(row, names(ident));
    if row.airport_ident@ == ident {
        assert(runways_of(rows.push(row), ident) =~= runways_of(rows, ident).push(row.runway()));
    }
}

/// An airport that no row names gets no runway.
pub proof fn lemma_runways_of_unnamed(rows: Seq<RunwayTemplate>, ident: Seq<char>)
    requires
        !has_runways(rows, ident),
    ensures
        runways_of(rows, ident) == Seq::<RunwayView>::empty(),
{
    assert forall|row: RunwayTemplate| rows.contains(row) implies !(#[trigger] names(ident)(row)) by {
        let i = choose|i: int| 0 <= i < rows.len() && rows[i] == row;
        assert(rows[i].airport_ident@ != ident);
    }
    rows.lemma_all_neg_filter_empty(names(ident));
    assert(runways_of(rows, ident) =~= Seq::<RunwayView>::empty());
}

impl View for RunwayGroups {
    type V = Map<Seq<char>, Seq<RunwayView>>;

    /// What the groups hold, as a map from identifier to runways.
    open spec fn view(&self) -> Map<Seq<char>, Seq<RunwayView>> {
        runway_groups(*self)
    }
}

impl RunwayGroups {
    /// Takes the group of `ident` out of the groups. An airport without a
    /// group, or whose group was taken before, gets no runways.
    pub fn take(&mut self, ident: &str) -> (runways: Vec<Runway>)
        ensures
            final(self)@ == old(self)@.remove(ident@),
            runway_views(runways@) == if old(self)@.contains_key(ident@) {
                old(self)@[ident@]
            } else {
                Seq::<RunwayView>::empty()
            },
    {
        match groups_remove(self, ident) {
            Some(group) => group,
            None => {
                let group: Vec<Runway> = Vec::new();
                assert(runway_views(group@) =~= Seq::<RunwayView>::empty());
                group
            },
        }
    }
}

/// Gathers the rows of a runway table into groups, one for each airport that a
/// row names.
pub fn load_runways(rows: Vec<RunwayTemplate>) -> (groups: RunwayGroups)
    ensures
        groups@ == grouped(rows@),
{
    let mut groups = groups_new();
    let ghost all = rows@;
    let ghost mut done: Seq<RunwayTemplate> = Seq::empty();
    assert(groups@ =~= grouped(done));
    for row in rest: rows
        invariant
            done == all.take(rest.index()),
            rest.seq() == all,
            groups@ == grouped(done),
    {
        let ghost before = groups@;
        let ghost current = row;
        let ghost ident = row.airport_ident@;
        let runway = Runway::from(row);
        let key = runway.airport.clone();
        let mut group = groups.take(key.as_str());
        group.push(runway);
        proof {
            assert(runway_views(group@) =~= (if before.contains_key(ident) {
                before[ident]
            } else {
                Seq::<RunwayView>::empty()
            }).push(current.runway()));
            if !before.contains_key(ident) {
                lemma_runways_of_unnamed(done, ident);
            }
        }
        let _ = groups_insert(&mut groups, key, group);
        proof {
            assert forall|other: Seq<char>|
                has_runways(done.push(current), other) == (other == ident || has_runways(
                    done,
                    other,
                )) by {
                if has_runways(done, other) {
                    let i = choose|i: int|
                        0 <= i < done.len() && #[trigger] done[i].airport_ident@ == other;
                    assert(done.push(current)[i].airport_ident@ == other);
                }
                if other == ident {
                    assert(done.push(current)[done.len() as int].airport_ident@ == other);
                }
            }
            assert forall|other: Seq<char>| #[trigger]
                has_runways(done.push(current), other) implies groups@[other] == runways_of(
                done.push(current),
                other,
            ) by {
                lemma_runways_of_push(done, current, other);
            }
            assert(all.take(rest.index() + 1) =~= done.push(current));
            done = done.push(current);
            assert(groups@ =~= grouped(done));
        }
    }
    proof {
        assert(all.take(all.len() as int) =~= all);
    }
    groups
}

/// What the index holds of one airport: the text of each of the four fields
/// of the schema. The payload is the airport itself; it is written out as
/// structured text where the document is added to the store.
#[derive(Clone, Debug, PartialEq, Eq)]
pub struct IndexDocument {
    /// The identifier, looked up by exact match.
    pub identifier: String,
    /// Free text for ranked search.
    pub description: String,
    /// Path of categories, from country down to name.
    pub facet: String,
    /// The record that a match gives back.
    pub object: Airport,
}

/// What an [`IndexDocument`] holds, with texts as sequences of characters.
pub ghost struct DocumentView {
    pub identifier: Seq<char>,
    pub description: Seq<char>,
    pub facet: Seq<char>,
    pub object: AirportView,
}

impl View for IndexDocument {
    type V = DocumentView;

    open spec fn view(&self) -> DocumentView {
        DocumentView {
            identifier: self.identifier@,
            description: self.description@,
            facet: self.facet@,
            object: self.object@,
        }
    }
}

/// The free text under which an airport is found: identifier and name, then
/// municipality, region and country, each after a comma.
pub open spec fn description_of(airport: AirportView) -> Seq<char> {
    airport.ident + " "@ + airport.name + ", "@ + airport.municipality + ", "@
        + airport.iso_region + ", "@ + airport.iso_country
}

/// The path of categories of an airport: country, region, municipality,
/// identifier and name, each after a slash.
pub open spec fn facet_of(airport: AirportView) -> Seq<char> {
    "/"@ + airport.iso_country + "/"@ + airport.iso_region + "/"@ + airport.municipality + "/"@
        + airport.ident + "/"@ + airport.name
}

/// The document of an airport.
pub open spec fn document_of(airport: AirportView) -> DocumentView {
    DocumentView {
        identifier: airport.ident,
        description: description_of(airport),
        facet: facet_of(airport),
        object: airport,
    }
}

impl IndexDocument {
    /// Composes the document of an airport.
    pub fn new(airport: Airport) -> (document: Self)
        ensures
            document@ == document_of(airport@),
    {
        let identifier = airport.ident.clone();

        let mut description = airport.ident.clone();
        description.append(" ");
        description.append(airport.name.as_str());
        description.append(", ");
        description.append(airport.municipality.as_str());
        description.append(", ");
        description.append(airport.iso_region.as_str());
        description.append(", ");
        description.append(airport.iso_country.as_str());

        let mut facet = String::from_str("/");
        facet.append(airport.iso_country.as_str());
        facet.append("/");
        facet.append(airport.iso_region.as_str());
        facet.append("/");
        facet.append(airport.municipality.as_str());
        facet.append("/");
        facet.append(airport.ident.as_str());
        facet.append("/");
        facet.append(airport.name.as_str());

        IndexDocument { identifier, description, facet, object: airport }
    }
}

/// Whether one of the first `count` airports of a table has the identifier
/// `ident`.
pub open spec fn listed_before(airports: Seq<AirportTemplate>, count: int, ident: Seq<char>) -> bool {
    exists|j: int| 0 <= j < count && #[trigger] airports[j].ident@ == ident
}

/// The runways that the airport at `position` of a table is given. A group of
/// runways goes to the first airport with its identifier and to no other.
pub open spec fn assigned_runways(
    airports: Seq<AirportTemplate>,
    rows: Seq<RunwayTemplate>,
    position: int,
) -> Seq<RunwayView> {
    if listed_before(airports, position, airports[position].ident@) {
        Seq::empty()
    } else {
        runways_of(rows, airports[position].ident@)
    }
}

/// The airport at `position` of a table, with the runways it is given.
pub open spec fn indexed_airport(
    airports: Seq<AirportTemplate>,
    rows: Seq<RunwayTemplate>,
    position: int,
) -> AirportView {
    AirportView {
        runways: assigned_runways(airports, rows, position),
        ..airports[position].airport()
    }
}

/// What is left of the groups of a runway table once the first `count`
/// airports have taken theirs.
pub open spec fn remaining_groups(
    airports: Seq<AirportTemplate>,
    rows: Seq<RunwayTemplate>,
    count: int,
) -> Map<Seq<char>, Seq<RunwayView>> {
    Map::new(
        |ident: Seq<char>| has_runways(rows, ident) && !listed_before(airports, count, ident),
        |ident: Seq<char>| runways_of(rows, ident),
    )
}

/// Whether `documents` are the documents of a dataset: one for each row of the
/// airport table, in the order of the table, each composed from the airport of
/// its row with the runways that the airport is given.
pub open spec fn is_index_of(
    documents: Seq<IndexDocument>,
    airports: Seq<AirportTemplate>,
    rows: Seq<RunwayTemplate>,
) -> bool {
    &&& documents.len() == airports.len()
    &&& forall|i: int|
        0 <= i < documents.len() ==> (#[trigger] documents[i])@ == document_of(
            indexed_airport(airports, rows, i),
        )
}

/// Builds the documents of a dataset: one for each row of the airport table,
/// in the order of the table, each airport with the runways that the runway
/// table gives it.
pub fn build_documents(airports: Vec<AirportTemplate>, runways: Vec<RunwayTemplate>) -> (documents:
    Vec<IndexDocument>)
    ensures
        is_index_of(documents@, airports@, runways@),
{
    let ghost table = airports@;
    let ghost rows = runways@;
    let mut groups = load_runways(runways);
    let mut documents: Vec<IndexDocument> = Vec::new();
    assert(groups@ =~= remaining_groups(table, rows, 0));
    for template in rest: airports
        invariant
            rest.seq() == table,
            documents@.len() == rest.index(),
            groups@ == remaining_groups(table, rows, rest.index()),
            forall|i: int|
                0 <= i < documents@.len() ==> (#[trigger] documents@[i])@ == document_of(
                    indexed_airport(table, rows, i),
                ),
    {
        let ghost position = rest.index();
        let ghost ident = template.ident@;
        let ghost plain = template.airport();
        let mut airport = match Airport::from_template(template) {
            Some(airport) => airport,
            None => {
                proof {
                    assert(false);
                }
                return documents;
            },
        };
        airport.runways = groups.take(airport.ident.as_str());
        proof {
            if !has_runways(rows, ident) {
                lemma_runways_of_unnamed(rows, ident);
            }
            assert(airport@ == indexed_airport(table, rows, position));
            assert forall|other: Seq<char>|
                listed_before(table, position + 1, other) == (other == ident || listed_before(
                    table,
                    position,
                    other,
                )) by {
                if listed_before(table, position, other) {
                    let j = choose|j: int|
                        0 <= j < position && #[trigger] table[j].ident@ == other;
                    assert(table[j].ident@ == other);
                }
                if other == ident {
                    assert(table[position].ident@ == other);
                }
            }
            assert(groups@ =~= remaining_groups(table, rows, position + 1));
        }
        documents.push(IndexDocument::new(airport));
    }
    documents
}

/// What opening the store has to do first.
#[derive(Clone, Copy, Debug, PartialEq, Eq, Structural)]
pub enum StoreAction {
    /// A store is there and is kept: open it.
    Open,
    /// No store is there: build one from the dataset.
    Build,
    /// A store is there and a new one is asked for: delete it, then build one
    /// from the dataset.
    Rebuild,
}

/// Decides what opening the store has to do, from whether a rebuild is asked
/// for and whether a store is there.
pub fn plan_initialize(force: bool, store_exists: bool) -> (action: StoreAction)
    ensures
        action == if !store_exists {
            StoreAction::Build
        } else if force {
            StoreAction::Rebuild
        } else {
            StoreAction::Open
        },
{
    if !store_exists {
        StoreAction::Build
    } else if force {
        StoreAction::Rebuild
    } else {
        StoreAction::Open
    }
}

/// The first airport of a table with a given identifier is given exactly the
/// runways of the rows that name it, as many as there are such rows and in
/// their order, and no runway of another airport.
pub proof fn law_runway_association(
    airports: Seq<AirportTemplate>,
    rows: Seq<RunwayTemplate>,
    position: int,
)
    requires
        0 <= position < airports.len(),
        !listed_before(airports, position, airports[position].ident@),
    ensures
        ({
            let ident = airports[position].ident@;
            let given = indexed_airport(airports, rows, position).runways;
            let naming = rows.filter(names(ident));
            &&& given.len() == naming.len()
            &&& forall|k: int|
                0 <= k < given.len() ==> #[trigger] given[k] == naming[k].runway()
                    && given[k].airport == ident
        }),
{
    let ident = airports[position].ident@;
    let naming = rows.filter(names(ident));
    assert forall|k: int| 0 <= k < naming.len() implies (#[trigger] naming[k]).airport_ident@
        == ident by {
        rows.lemma_filter_pred(names(ident), k);
    }
}

/// An airport whose identifier stands earlier in the table is given no runway:
/// the group has gone to the earlier airport.
pub proof fn law_runways_given_once(
    airports: Seq<AirportTemplate>,
    rows: Seq<RunwayTemplate>,
    position: int,
)
    requires
        0 <= position < airports.len(),
        listed_before(airports, position, airports[position].ident@),
    ensures
        indexed_airport(airports, rows, position).runways == Seq::<RunwayView>::empty(),
{
}

/// An airport that no row of the runway table names is given no runway.
pub proof fn law_no_runways_without_rows(
    airports: Seq<AirportTemplate>,
    rows: Seq<RunwayTemplate>,
    position: int,
)
    requires
        0 <= position < airports.len(),
        !has_runways(rows, airports[position].ident@),
    ensures
        indexed_airport(airports, rows, position).runways == Seq::<RunwayView>::empty(),
{
    lemma_runways_of_unnamed(rows, airports[position].ident@);
}

/// The path of categories of every airport begins with a slash, whatever the
/// airport holds: it is never empty and always a path from the root.
pub proof fn law_facet_begins_at_root(airport: AirportView)
    ensures
        facet_of(airport).len() > 0,
        facet_of(airport)[0] == '/',
{
    reveal_strlit("/");
}

/// Building the documents of one dataset twice gives the same documents: what
/// a rebuilt store holds depends on the dataset alone.
pub proof fn law_rebuild_gives_same_documents(
    first: Seq<IndexDocument>,
    second: Seq<IndexDocument>,
    airports: Seq<AirportTemplate>,
    rows: Seq<RunwayTemplate>,
)
    requires
        is_index_of(first, airports, rows),
        is_index_of(second, airports, rows),
    ensures
        first.len() == second.len(),
        forall|i: int| 0 <= i < first.len() ==> (#[trigger] first[i])@ == second[i]@,
{
}

/// The document of a row is found under the identifier of the row, and its
/// payload is the airport of the row with the runways that it is given.
pub proof fn law_document_holds_airport(
    documents: Seq<IndexDocument>,
    airports: Seq<AirportTemplate>,
    rows: Seq<RunwayTemplate>,
    position: int,
)
    requires
        is_index_of(documents, airports, rows),
        0 <= position < airports.len(),
    ensures
        documents[position]@.identifier == airports[position].ident@,
        documents[position]@.object == indexed_airport(airports, rows, position),
        documents[position].object@.ident == airports[position].ident@,
{
}

} // verus!
