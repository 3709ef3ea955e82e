//! The event log of every intent's lifecycle.
//!
//! The log is append-only: each row is one stage that one intent reached, with what was known at
//! that stage as JSON. Rows are never changed, so what is still in flight is read off the log.
use vstd::prelude::*;
use vstd::hash_set::StringHashSet;
use vstd::string::*;
use crate::primitives::B256;
use crate::text;
use crate::text::{hex_prefixed, text_equal};

verus! {

/// The stages of an intent, in the order in which it goes through them.
#[derive(Clone, Copy, Debug, PartialEq, Eq)]
pub enum Stage {
    Observed,
    Quoted,
    Simulated,
    Decided,
    Settled,
}

impl Stage {
    /// The name under which the stage is logged.
    pub open spec fn name(self) -> Seq<char> {
        match self {
            Stage::Observed => "observed"@,
            Stage::Quoted => "quoted"@,
            Stage::Simulated => "simulated"@,
            Stage::Decided => "decided"@,
            Stage::Settled => "settled"@,
        }
    }

    /// The name under which the stage is logged.
    pub fn as_str(self) -> (s: &'static str)
        ensures
            s@ == self.name(),
            s@ == match self {
                Stage::Observed => "observed"@,
                Stage::Quoted => "quoted"@,
                Stage::Simulated => "simulated"@,
                Stage::Decided => "decided"@,
                Stage::Settled => "settled"@,
            },
    {
        match self {
            Stage::Observed => "observed",
            Stage::Quoted => "quoted",
            Stage::Simulated => "simulated",
            Stage::Decided => "decided",
            Stage::Settled => "settled",
        }
    }
}

/// One row of the log.
#[derive(Clone, Debug, PartialEq, Eq)]
pub struct EventRow {
    pub intent_id: String,
    pub stage: String,
    pub payload_json: String,
    pub created_at: i64,
}

/// The contents of an [`EventRow`].
pub struct RowView {
    pub intent_id: Seq<char>,
    pub stage: Seq<char>,
    pub payload_json: Seq<char>,
    pub created_at: i64,
}

impl View for EventRow {
    type V = RowView;

    open spec fn view(&self) -> RowView {
        RowView {
            intent_id: self.intent_id@,
            stage: self.stage@,
            payload_json: self.payload_json@,
            created_at: self.created_at,
        }
    }
}

/// A Unix time in seconds as the log keeps it: in 64 signed bits, zero where the clock stands
/// before the epoch.
pub open spec fn logged_time(now: Option<u64>) -> int {
    match now {
        Some(n) => if n <= i64::MAX {
            n as int
        } else {
            n - 0x1_0000_0000_0000_0000
        },
        None => 0,
    }
}

/// The row for a stage of an intent.
pub open spec fn row_of(
    intent_id: Seq<u8>,
    stage: Stage,
    payload_json: Seq<char>,
    now: Option<u64>,
) -> RowView {
    RowView {
        intent_id: text::prefixed_hex(intent_id),
        stage: stage.name(),
        payload_json,
        created_at: logged_time(now) as i64,
    }
}

/// The row for a stage of an intent. `now` is the Unix time in seconds, absent where the clock
/// stands before the epoch.
pub fn event_row(intent_id: &B256, stage: Stage, payload_json: String, now: Option<u64>) -> (row:
    EventRow)
    ensures
        row@ == row_of(intent_id@, stage, payload_json@, now),
        row.intent_id@ == text::prefixed_hex(intent_id@),
        row.stage@ == stage.name(),
        row.payload_json@ == payload_json@,
        now is None ==> row.created_at == 0,
        now matches Some(n) ==> n <= i64::MAX ==> row.created_at == n,
{
    let created_at: i64 = match now {
        Some(n) => if n <= 0x7fff_ffff_ffff_ffff {
            n as i64
        } else {
            -((0xffff_ffff_ffff_ffff - n) as i64) - 1
        },
        None => 0,
    };
    EventRow {
        intent_id: hex_prefixed(intent_id),
        stage: String::from_str(stage.as_str()),
        payload_json,
        created_at,
    }
}

/// The intents that have a row of a stage.
pub open spec fn ids_at(rows: Seq<RowView>, stage: Stage) -> Set<Seq<char>> {
    Set::new(
        |id: Seq<char>|
            exists|i: int|
                0 <= i < rows.len() && #[trigger] rows[i].intent_id == id && rows[i].stage
                    == stage.name(),
    )
}

/// The intents that were observed and never settled.
pub open spec fn pending(rows: Seq<RowView>) -> Set<Seq<char>> {
    ids_at(rows, Stage::Observed).difference(ids_at(rows, Stage::Settled))
}

/// The rows of a log.
pub struct Store {
    rows: Vec<EventRow>,
}

impl View for Store {
    type V = Seq<RowView>;

    closed spec fn view(&self) -> Seq<RowView> {
        self.rows@.map_values(|row: EventRow| row@)
    }
}

proof fn lemma_ids_at_step(rows: Seq<RowView>, i: int, stage: Stage)
    requires
        0 <= i < rows.len(),
    ensures
        ids_at(rows.take(i + 1), stage) == (if rows[i].stage == stage.name() {
            ids_at(rows.take(i), stage).insert(rows[i].intent_id)
        } else {
            ids_at(rows.take(i), stage)
        }),
{
    assert(rows.take(i + 1) =~= rows.take(i).push(rows[i]));
    lemma_ids_at_push(rows.take(i), rows[i], stage);
}

proof fn lemma_ids_at_push(rows: Seq<RowView>, row: RowView, stage: Stage)
    ensures
        ids_at(rows.push(row), stage) == (if row.stage == stage.name() {
            ids_at(rows, stage).insert(row.intent_id)
        } else {
            ids_at(rows, stage)
        }),
{
    let before = ids_at(rows, stage);
    let after = ids_at(rows.push(row), stage);
    assert forall|id: Seq<char>| before.contains(id) implies after.contains(id) by {
        let k = choose|k: int|
            0 <= k < rows.len() && #[trigger] rows[k].intent_id == id && rows[k].stage
                == stage.name();
        assert(rows.push(row)[k] == rows[k]);
    }
    assert forall|id: Seq<char>| after.contains(id) implies before.contains(id) || (id
        == row.intent_id && row.stage == stage.name()) by {
        let k = choose|k: int|
            0 <= k < rows.push(row).len() && #[trigger] rows.push(row)[k].intent_id == id
                && rows.push(row)[k].stage == stage.name();
        if k < rows.len() {
            assert(rows[k].intent_id == id);
        }
    }
    if row.stage == stage.name() {
        assert(rows.push(row)[rows.len() as int].intent_id == row.intent_id);
        assert(after =~= before.insert(row.intent_id));
    } else {
        assert(after =~= before);
    }
}

impl Store {
    /// A log without rows.
    pub fn new() -> (store: Self)
        ensures
            store@ == Seq::<RowView>::empty(),
    {
        let store = Store { rows: Vec::new() };
        assert(store@ =~= Seq::<RowView>::empty());
        store
    }

    /// A log with the rows that were read, in their order.
    pub fn from_rows(rows: Vec<EventRow>) -> (store: Self)
        ensures
            store@ == rows@.map_values(|row: EventRow| row@),
    {
        Store { rows }
    }

    /// Appends a stage of an intent.
    pub fn record_event(
        &mut self,
        intent_id: &B256,
        stage: Stage,
        payload_json: String,
        now: Option<u64>,
    )
        ensures
            final(self)@ == old(self)@.push(row_of(intent_id@, stage, payload_json@, now)),
            final(self)@.len() == old(self)@.len() + 1,
            final(self)@.drop_last() == old(self)@,
            final(self)@.last().intent_id == text::prefixed_hex(intent_id@),
            final(self)@.last().stage == stage.name(),
            final(self)@.last().payload_json == payload_json@,
            now is None ==> final(self)@.last().created_at == 0,
            now matches Some(n) ==> n <= i64::MAX ==> final(self)@.last().created_at == n,
    {
        self.rows.push(event_row(intent_id, stage, payload_json, now));
        assert(self@ =~= old(self)@.push(row_of(intent_id@, stage, payload_json@, now)));
        assert(self@.drop_last() =~= old(self)@);
    }

    /// The intents that have a row of a stage.
    fn ids(&self, stage: Stage) -> (ids: StringHashSet)
        ensures
            ids@ == ids_at(self@, stage),
    {
        let mut ids: StringHashSet = StringHashSet::new();
        let mut i: usize = 0;
        assert(ids@ =~= ids_at(self@.take(0), stage));
        while i < self.rows.len()
            invariant
                i <= self.rows@.len(),
                self@.len() == self.rows@.len(),
                ids@ == ids_at(self@.take(i as int), stage),
            decreases self.rows@.len() - i,
        {
            proof {
                lemma_ids_at_step(self@, i as int, stage);
            }
            if text_equal(self.rows[i].stage.as_str(), stage.as_str()) {
                ids.insert(self.rows[i].intent_id.clone());
            }
            i += 1;
        }
        assert(self@.take(i as int) =~= self@);
        ids
    }

    /// How many intents were observed and never settled: what was in flight when the log ended.
    pub fn count_pending(&self) -> (count: u64)
        ensures
            count as nat == pending(self@).len(),
    {
        let settled: StringHashSet = self.ids(Stage::Settled);
        let mut open: StringHashSet = StringHashSet::new();
        let mut i: usize = 0;
        assert(open@ =~= ids_at(self@.take(0), Stage::Observed).difference(settled@));
        while i < self.rows.len()
            invariant
                i <= self.rows@.len(),
                self@.len() == self.rows@.len(),
                settled@ == ids_at(self@, Stage::Settled),
                open@ == ids_at(self@.take(i as int), Stage::Observed).difference(settled@),
            decreases self.rows@.len() - i,
        {
            proof {
                lemma_ids_at_step(self@, i as int, Stage::Observed);
            }
            let id: &str = self.rows[i].intent_id.as_str();
            if text_equal(self.rows[i].stage.as_str(), Stage::Observed.as_str())
                && !settled.contains(id) {
                open.insert(self.rows[i].intent_id.clone());
            }
            assert(open@ =~= ids_at(self@.take(i + 1), Stage::Observed).difference(settled@));
            i += 1;
        }
        assert(self@.take(i as int) =~= self@);
        open.len() as u64
    }
}

/// No two stages share a name.
pub proof fn lemma_stage_names_differ(a: Stage, b: Stage)
    ensures
        a.name() == b.name() <==> a == b,
{
    reveal_strlit("observed");
    reveal_strlit("quoted");
    reveal_strlit("simulated");
    reveal_strlit("decided");
    reveal_strlit("settled");
    if a != b && a.name() == b.name() {
        assert(a.name().len() == b.name().len());
        assert(a.name()[0] == b.name()[0]);
        assert(a.name()[1] == b.name()[1]);
    }
}

/// No two intents share a log identifier.
pub proof fn lemma_intent_texts_differ(a: Seq<u8>, b: Seq<u8>)
    ensures
        text::prefixed_hex(a) == text::prefixed_hex(b) <==> a == b,
{
    text::lemma_hex_round_trip(a);
    text::lemma_hex_round_trip(b);
    assert(text::prefixed_hex(a).skip(2) =~= text::hex_text(a));
    assert(text::prefixed_hex(b).skip(2) =~= text::hex_text(b));
}

/// What one more row does to the intents in flight: an observation adds its intent unless it was
/// settled before, a settlement removes its intent, and every other stage changes nothing.
pub proof fn lemma_pending_after_row(
    rows: Seq<RowView>,
    intent_id: Seq<u8>,
    stage: Stage,
    payload_json: Seq<char>,
    now: Option<u64>,
)
    ensures
        pending(rows.push(row_of(intent_id, stage, payload_json, now))) == (match stage {
            Stage::Observed => if ids_at(rows, Stage::Settled).contains(
                text::prefixed_hex(intent_id),
            ) {
                pending(rows)
            } else {
                pending(rows).insert(text::prefixed_hex(intent_id))
            },
            Stage::Settled => pending(rows).remove(text::prefixed_hex(intent_id)),
            _ => pending(rows),
        }),
{
    let row = row_of(intent_id, stage, payload_json, now);
    lemma_ids_at_push(rows, row, Stage::Observed);
    lemma_ids_at_push(rows, row, Stage::Settled);
    lemma_stage_names_differ(stage, Stage::Observed);
    lemma_stage_names_differ(stage, Stage::Settled);
    let id = text::prefixed_hex(intent_id);
    let after = pending(rows.push(row));
    match stage {
        Stage::Observed => {
            if ids_at(rows, Stage::Settled).contains(id) {
                assert(after =~= pending(rows));
            } else {
                assert(after =~= pending(rows).insert(id));
            }
        },
        Stage::Settled => {
            assert(after =~= pending(rows).remove(id));
        },
        _ => {
            assert(after =~= pending(rows));
        },
    }
}

/// An intent that was settled is never in flight again, whatever is logged afterwards.
pub proof fn lemma_settled_stays_settled(rows: Seq<RowView>, later: Seq<RowView>, id: Seq<char>)
    requires
        ids_at(rows, Stage::Settled).contains(id),
    ensures
        !pending(rows + later).contains(id),
{
    let i = choose|i: int|
        0 <= i < rows.len() && #[trigger] rows[i].intent_id == id && rows[i].stage
            == Stage::Settled.name();
    assert((rows + later)[i] == rows[i]);
}

/// The row for a stage carries what was handed in: the payload character for character, the intent
/// in hexadecimal, the name of the stage, and the time in seconds, zero where there is none. A time
/// beyond what 64 signed bits hold wraps around.
pub proof fn lemma_rows_carry_their_payload(
    intent_id: Seq<u8>,
    stage: Stage,
    payload_json: Seq<char>,
    now: Option<u64>,
)
    ensures
        row_of(intent_id, stage, payload_json, now).payload_json == payload_json,
        row_of(intent_id, stage, payload_json, now).intent_id.len() == 2 + 2 * intent_id.len(),
        text::hex_bytes(row_of(intent_id, stage, payload_json, now).intent_id.skip(2)) == Some(
            intent_id,
        ),
        row_of(intent_id, stage, payload_json, now).stage == match stage {
            Stage::Observed => "observed"@,
            Stage::Quoted => "quoted"@,
            Stage::Simulated => "simulated"@,
            Stage::Decided => "decided"@,
            Stage::Settled => "settled"@,
        },
        now is None ==> row_of(intent_id, stage, payload_json, now).created_at == 0,
        now matches Some(n) ==> row_of(intent_id, stage, payload_json, now).created_at == if n
            <= i64::MAX {
            n as int
        } else {
            n - 0x1_0000_0000_0000_0000
        },
{
    text::lemma_hex_round_trip(intent_id);
    assert(text::prefixed_hex(intent_id).skip(2) =~= text::hex_text(intent_id));
}

/// The log is append-only: recording keeps every row as it was and where it was, and puts the payload
/// that was handed in into the last row. Two stages with different payloads leave different logs.
pub proof fn lemma_recording_appends_the_payload(
    rows: Seq<RowView>,
    intent_id: Seq<u8>,
    stage: Stage,
    payload_json: Seq<char>,
    other_payload: Seq<char>,
    now: Option<u64>,
)
    ensures
        ({
            let after = rows.push(row_of(intent_id, stage, payload_json, now));
            &&& after.len() == rows.len() + 1
            &&& forall|i: int| 0 <= i < rows.len() ==> #[trigger] after[i] == rows[i]
            &&& after.last().payload_json == payload_json
        }),
        row_of(intent_id, stage, payload_json, now) == row_of(intent_id, stage, other_payload, now)
            <==> payload_json == other_payload,
{
}

/// An intent is in flight exactly where a row says that it was observed and none says that it was
/// settled, wherever these rows are in the log and whatever else is in it.
pub proof fn lemma_in_flight_is_observed_and_not_settled(rows: Seq<RowView>, id: Seq<char>)
    ensures
        pending(rows).contains(id) <==> (exists|i: int|
            0 <= i < rows.len() && (#[trigger] rows[i]).intent_id == id && rows[i].stage
                == "observed"@) && (forall|i: int|
            0 <= i < rows.len() && (#[trigger] rows[i]).intent_id == id ==> rows[i].stage
                != "settled"@),
{
    if exists|i: int|
        0 <= i < rows.len() && (#[trigger] rows[i]).intent_id == id && rows[i].stage
            == "observed"@ {
        let i = choose|i: int|
            0 <= i < rows.len() && (#[trigger] rows[i]).intent_id == id && rows[i].stage
                == "observed"@;
        assert(rows[i].intent_id == id && rows[i].stage == Stage::Observed.name());
        assert(ids_at(rows, Stage::Observed).contains(id));
    }
    if ids_at(rows, Stage::Observed).contains(id) {
        let i = choose|i: int|
            0 <= i < rows.len() && #[trigger] rows[i].intent_id == id && rows[i].stage
                == Stage::Observed.name();
        assert(rows[i].stage == "observed"@);
    }
    if ids_at(rows, Stage::Settled).contains(id) {
        let i = choose|i: int|
            0 <= i < rows.len() && #[trigger] rows[i].intent_id == id && rows[i].stage
                == Stage::Settled.name();
        assert(rows[i].stage == "settled"@);
    }
    assert forall|i: int|
        0 <= i < rows.len() && (#[trigger] rows[i]).intent_id == id && rows[i].stage
            == "settled"@ implies ids_at(rows, Stage::Settled).contains(id) by {
        assert(rows[i].intent_id == id && rows[i].stage == Stage::Settled.name());
    }
}

} // verus!
