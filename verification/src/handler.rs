//! The transaction handler of the family and the payload it reads.

use crate::addressing::{get_dgc_rest_api_prefix, namespace_prefix};
use crate::answers::answer_proposal_spec;
use crate::codec::{copy_of, from_bytes, value_of_bytes};
use crate::error::{outcome, reject, rejection, ApplyError, ApplyErrorModel};
use crate::payload::{Action, ActionModel, Payload, PayloadModel};
use crate::proposals::create_proposal_spec;
use crate::records::create_record_spec;
use crate::registry::{create_participant_spec, create_table_spec, finalize_record_spec};
use crate::reporters::revoke_reporter_spec;
use crate::schema::{PropertySchema, PropertySchemaModel};
use crate::state::{Cell, CellModel, StateDGC, Step};
use crate::updates::update_properties_spec;
use vstd::prelude::*;
use vstd::string::*;

verus! {

/// What a transaction hands to the handler.
#[derive(Clone, Debug, PartialEq, Eq)]
pub struct Transaction {
    /// The payload, as bytes.
    pub payload: Vec<u8>,
    /// The public key of the signer, on whose authority the transaction acts.
    pub signer_public_key: String,
}

/// A payload that has been read and checked.
#[derive(Clone, Debug, PartialEq, Eq)]
pub struct PayloadDGC {
    pub action: Action,
    pub timestamp: u64,
}

impl View for PayloadDGC {
    type V = PayloadModel;

    open spec fn view(&self) -> PayloadModel {
        PayloadModel { action: self.action@, timestamp: self.timestamp }
    }
}

/// The payload that bytes hold, if they hold one.
pub open spec fn payload_of(bytes: Seq<u8>) -> Option<PayloadModel> {
    value_of_bytes::<Payload>(bytes)
}

/// Whether every property of a schema has a name.
pub open spec fn all_named(properties: Seq<PropertySchemaModel>) -> bool {
    forall|k: int| 0 <= k < properties.len() ==> (#[trigger] properties[k]).name.len() > 0
}

/// What is wrong with an action as it stands, if anything: a participant and
/// a table need a name, a record an identifier, and a table at least one
/// property, each with a name.
pub open spec fn action_fault(action: ActionModel) -> Option<ApplyErrorModel> {
    match action {
        ActionModel::CreateParticipant(a) => if a.name.len() == 0 {
            Some(rejection("Participant name cannot be an empty string"@, ""@))
        } else {
            None
        },
        ActionModel::CreateRecord(a) => if a.record_id.len() == 0 {
            Some(rejection("Record id cannot be empty string"@, ""@))
        } else {
            None
        },
        ActionModel::CreateTable(a) => if a.name.len() == 0 {
            Some(rejection("Table name cannot be an empty string"@, ""@))
        } else if a.properties.len() == 0 {
            Some(rejection("Table must have at least one property"@, ""@))
        } else if !all_named(a.properties) {
            Some(rejection("Property name cannot be an empty string"@, ""@))
        } else {
            None
        },
        _ => None,
    }
}

/// The payload that bytes hold, or why they are rejected: they must be a
/// payload, its action must be well-formed, and its timestamp must be set.
pub open spec fn read_payload(bytes: Seq<u8>) -> Result<PayloadModel, ApplyErrorModel> {
    match payload_of(bytes) {
        None => Err(rejection("Cannot deserialize payload"@, ""@)),
        Some(p) => match action_fault(p.action) {
            Some(e) => Err(e),
            None => if p.timestamp == 0 {
                Err(rejection("Timestamp is not set"@, ""@))
            } else {
                Ok(p)
            },
        },
    }
}

/// What the action of a payload does to the state.
pub open spec fn dispatch_spec(
    journal: Seq<CellModel>,
    payload: PayloadModel,
    signer: Seq<char>,
) -> Step {
    match payload.action {
        ActionModel::CreateParticipant(a) => create_participant_spec(
            journal,
            a.name,
            signer,
            payload.timestamp,
        ),
        ActionModel::CreateRecord(a) => create_record_spec(journal, a, signer, payload.timestamp),
        ActionModel::FinalizeRecord(a) => finalize_record_spec(journal, a.record_id, signer),
        ActionModel::CreateTable(a) => create_table_spec(journal, a.name, a.properties),
        ActionModel::UpdateProperties(a) => update_properties_spec(
            journal,
            a,
            signer,
            payload.timestamp,
        ),
        ActionModel::CreateProposal(a) => create_proposal_spec(
            journal,
            a,
            signer,
            payload.timestamp,
        ),
        ActionModel::AnswerProposal(a) => answer_proposal_spec(
            journal,
            a,
            signer,
            payload.timestamp,
        ),
        ActionModel::RevokeReporter(a) => revoke_reporter_spec(journal, a, signer),
    }
}

/// What an attempt to apply a transaction does to the state: the payload is
/// read, and its action is carried out on the authority of the signer, write
/// by write, up to the first failure.
pub open spec fn attempt_spec(
    journal: Seq<CellModel>,
    payload: Seq<u8>,
    signer: Seq<char>,
) -> Step {
    match read_payload(payload) {
        Err(e) => (journal, Err(e)),
        Ok(p) => dispatch_spec(journal, p, signer),
    }
}

/// What a transaction does to the state: all that an attempt does where the
/// attempt succeeds, and nothing where it fails. The state after it and its
/// result are a function of the state before it, the payload and the signer.
pub open spec fn apply_spec(journal: Seq<CellModel>, payload: Seq<u8>, signer: Seq<char>) -> Step {
    let (after, r) = attempt_spec(journal, payload, signer);
    match r {
        Ok(()) => (after, r),
        Err(_) => (journal, r),
    }
}

/// What the handler asks of its host after an attempt to apply a
/// transaction.
#[derive(Clone, Debug, PartialEq, Eq)]
pub enum Next {
    /// The content of the address is needed: load it, and attempt again.
    Load(String),
    /// The transaction succeeded: write the cells, in order.
    Commit(Vec<Cell>),
    /// The transaction failed: nothing is to be written.
    Reject(ApplyError),
}

/// The cells of a journal that were written, in order.
pub open spec fn written_cells(journal: Seq<CellModel>) -> Seq<CellModel>
    decreases journal.len(),
{
    if journal.len() == 0 {
        Seq::empty()
    } else if journal.last().written {
        written_cells(journal.drop_last()).push(journal.last())
    } else {
        written_cells(journal.drop_last())
    }
}

/// The mathematical value of a [`Next`].
pub enum NextModel {
    Load(Seq<char>),
    Commit(Seq<CellModel>),
    Reject(ApplyErrorModel),
}

impl View for Next {
    type V = NextModel;

    open spec fn view(&self) -> NextModel {
        match self {
            Next::Load(address) => NextModel::Load(address@),
            Next::Commit(cells) => NextModel::Commit(cells.deep_view()),
            Next::Reject(e) => NextModel::Reject(e@),
        }
    }
}

/// What the host is asked to do after an attempt on the cells it has loaded:
/// to load the address that the transaction could not read, to write the
/// cells that the transaction wrote, or to reject the transaction.
pub open spec fn next_spec(
    loaded: Seq<CellModel>,
    payload: Seq<u8>,
    signer: Seq<char>,
) -> NextModel {
    let (journal, r) = apply_spec(loaded, payload, signer);
    match r {
        Ok(()) => NextModel::Commit(written_cells(journal)),
        Err(ApplyErrorModel::StateNotLoaded(address)) => NextModel::Load(address),
        Err(e) => NextModel::Reject(e),
    }
}

/// A copy of a cell.
pub fn copy_cell(cell: &Cell) -> (copy: Cell)
    ensures
        copy@ == cell@,
{
    let data = match &cell.data {
        Some(b) => Some(vstd::slice::slice_to_vec(b.as_slice())),
        None => None,
    };
    Cell { address: cell.address.clone(), data, written: cell.written }
}

/// A copy of a journal.
pub fn copy_cells(cells: &Vec<Cell>) -> (out: Vec<Cell>)
    ensures
        out.deep_view() == cells.deep_view(),
{
    let mut out: Vec<Cell> = Vec::new();
    let mut i: usize = 0;
    proof {
        assert(cells.deep_view().take(0) =~= Seq::<CellModel>::empty());
        assert(out.deep_view() =~= Seq::<CellModel>::empty());
    }
    while i < cells.len()
        invariant
            i <= cells.len(),
            out.deep_view() == cells.deep_view().take(i as int),
        decreases cells.len() - i,
    {
        let ghost before = out.deep_view();
        let copy = copy_cell(&cells[i]);
        out.push(copy);
        proof {
            assert(out.deep_view() =~= before.push(copy@));
            assert(cells.deep_view().take(i as int + 1) =~= before.push(copy@));
        }
        i = i + 1;
    }
    proof {
        assert(cells.deep_view().take(cells.len() as int) =~= cells.deep_view());
    }
    out
}

/// The cells of a journal that were written, in order.
pub fn collect_written(cells: &Vec<Cell>) -> (out: Vec<Cell>)
    ensures
        out.deep_view() == written_cells(cells.deep_view()),
{
    let mut out: Vec<Cell> = Vec::new();
    let mut i: usize = 0;
    proof {
        assert(cells.deep_view().take(0) =~= Seq::<CellModel>::empty());
        assert(out.deep_view() =~= Seq::<CellModel>::empty());
    }
    while i < cells.len()
        invariant
            i <= cells.len(),
            out.deep_view() == written_cells(cells.deep_view().take(i as int)),
        decreases cells.len() - i,
    {
        let ghost before = out.deep_view();
        proof {
            assert(cells.deep_view().take(i as int + 1).drop_last() =~= cells.deep_view().take(
                i as int,
            ));
            assert(cells.deep_view().take(i as int + 1).last() == cells[i as int]@);
        }
        if cells[i].written {
            let copy = copy_cell(&cells[i]);
            out.push(copy);
            proof {
                assert(out.deep_view() =~= before.push(copy@));
            }
        }
        i = i + 1;
    }
    proof {
        assert(cells.deep_view().take(cells.len() as int) =~= cells.deep_view());
    }
    out
}

/// Checks that every property of a schema has a name.
pub fn check_named(properties: &Vec<PropertySchema>) -> (r: bool)
    ensures
        r == all_named(properties.deep_view()),
{
    let mut i: usize = 0;
    while i < properties.len()
        invariant
            i <= properties.len(),
            forall|k: int| 0 <= k < i ==> (#[trigger] properties.deep_view()[k]).name.len() > 0,
        decreases properties.len() - i,
    {
        if properties[i].name.as_str().is_empty() {
            assert(properties.deep_view()[i as int].name.len() == 0);
            return false;
        }
        i = i + 1;
    }
    true
}

impl PayloadDGC {
    /// Reads and checks a payload. A payload that is accepted is always
    /// given: the result is never `Ok(None)`.
    pub fn new(payload: &[u8]) -> (r: Result<Option<PayloadDGC>, ApplyError>)
        ensures
            match read_payload(payload@) {
                Ok(p) => r matches Ok(Some(read)) && read@ == p,
                Err(e) => r matches Err(f) && f@ == e,
            },
    {
        let read = match from_bytes::<Payload>(payload) {
            Some(read) => read,
            None => {
                return Err(reject("Cannot deserialize payload", ""));
            },
        };
        match &read.action {
            Action::CreateParticipant(a) => {
                if a.name.as_str().is_empty() {
                    return Err(reject("Participant name cannot be an empty string", ""));
                }
            },
            Action::CreateRecord(a) => {
                if a.record_id.as_str().is_empty() {
                    return Err(reject("Record id cannot be empty string", ""));
                }
            },
            Action::CreateTable(a) => {
                if a.name.as_str().is_empty() {
                    return Err(reject("Table name cannot be an empty string", ""));
                }
                if a.properties.len() == 0 {
                    return Err(reject("Table must have at least one property", ""));
                }
                if !check_named(&a.properties) {
                    return Err(reject("Property name cannot be an empty string", ""));
                }
            },
            _ => {},
        }
        if read.timestamp == 0 {
            return Err(reject("Timestamp is not set", ""));
        }
        Ok(Some(PayloadDGC { action: read.action, timestamp: read.timestamp }))
    }

    /// The action of the payload.
    pub fn get_action(&self) -> (action: Action)
        ensures
            action@ == self@.action,
    {
        copy_of(&self.action)
    }

    /// The time the transaction was made.
    pub fn get_timestamp(&self) -> (timestamp: u64)
        ensures
            timestamp == self@.timestamp,
    {
        self.timestamp
    }
}

/// The handler of the `dgc_REST_api` transaction family.
#[derive(Clone, Debug, PartialEq, Eq)]
pub struct TransactionHandlerDGC {
    pub family_name: String,
    pub family_versions: Vec<String>,
    pub namespaces: Vec<String>,
}

impl TransactionHandlerDGC {
    /// The handler, with the name, the version and the namespace of the
    /// family.
    pub fn new() -> (handler: TransactionHandlerDGC)
        ensures
            handler.family_name@ == "dgc_REST_api"@,
            handler.family_versions.deep_view() == seq!["1.1"@],
            handler.namespaces.deep_view() == seq![namespace_prefix()],
    {
        let mut family_versions: Vec<String> = Vec::new();
        family_versions.push(String::from_str("1.1"));
        let mut namespaces: Vec<String> = Vec::new();
        namespaces.push(get_dgc_rest_api_prefix());
        proof {
            assert(family_versions.deep_view() =~= seq!["1.1"@]);
            assert(namespaces.deep_view() =~= seq![namespace_prefix()]);
        }
        TransactionHandlerDGC {
            family_name: String::from_str("dgc_REST_api"),
            family_versions,
            namespaces,
        }
    }

    /// The name of the family.
    pub fn family_name(&self) -> (name: String)
        ensures
            name@ == self.family_name@,
    {
        self.family_name.clone()
    }

    /// The versions of the family that the handler speaks.
    pub fn family_versions(&self) -> (versions: Vec<String>)
        ensures
            versions.deep_view() == self.family_versions.deep_view(),
    {
        copy_of(&self.family_versions)
    }

    /// The namespaces that the handler writes to.
    pub fn namespaces(&self) -> (namespaces: Vec<String>)
        ensures
            namespaces.deep_view() == self.namespaces.deep_view(),
    {
        copy_of(&self.namespaces)
    }

    /// Carries out the action of a payload.
    pub fn dispatch(&self, payload: PayloadDGC, state: &mut StateDGC, signer: &str) -> (r: Result<
        (),
        ApplyError,
    >)
        ensures
            (final(state)@, outcome(r)) == dispatch_spec(old(state)@, payload@, signer@),
    {
        let timestamp = payload.timestamp;
        match payload.action {
            Action::CreateParticipant(a) => self._create_participant(a, state, signer, timestamp),
            Action::CreateRecord(a) => self._create_record(a, state, signer, timestamp),
            Action::FinalizeRecord(a) => self._finalize_record(a, state, signer),
            Action::CreateTable(a) => self._create_table(a, state, signer),
            Action::UpdateProperties(a) => self._update_properties(a, state, signer, timestamp),
            Action::CreateProposal(a) => self._create_proposal(a, state, signer, timestamp),
            Action::AnswerProposal(a) => self._answer_proposal(a, state, signer, timestamp),
            Action::RevokeReporter(a) => self._revoke_reporter(a, state, signer),
        }
    }

    /// Attempts to apply a transaction to the state: the writes are made one
    /// by one, and those made before a failure stay in the journal.
    pub fn attempt(&self, request: &Transaction, state: &mut StateDGC) -> (r: Result<
        (),
        ApplyError,
    >)
        ensures
            (final(state)@, outcome(r)) == attempt_spec(
                old(state)@,
                request.payload@,
                request.signer_public_key@,
            ),
    {
        let payload = match PayloadDGC::new(request.payload.as_slice()) {
            Ok(Some(payload)) => payload,
            Ok(None) => {
                return Err(reject("Request must contain a payload", ""));
            },
            Err(e) => {
                return Err(e);
            },
        };
        self.dispatch(payload, state, request.signer_public_key.as_str())
    }

    /// Applies a transaction to the state. Where it succeeds, the state has
    /// all its writes, in the order in which they were made; where it fails,
    /// the state is as it was. What is written depends on the state, the
    /// payload and the signer alone.
    pub fn apply(&self, request: &Transaction, state: &mut StateDGC) -> (r: Result<(), ApplyError>)
        ensures
            (final(state)@, outcome(r)) == apply_spec(
                old(state)@,
                request.payload@,
                request.signer_public_key@,
            ),
    {
        let mut scratch = StateDGC { cells: copy_cells(&state.cells) };
        match self.attempt(request, &mut scratch) {
            Ok(()) => {
                *state = scratch;
                Ok(())
            },
            Err(e) => Err(e),
        }
    }

    /// Applies a transaction to the cells that the host has loaded, and says
    /// what the host is to do next: load one more address and apply again,
    /// write the cells of the transaction, or reject it. The loaded cells are
    /// not changed.
    pub fn step(&self, request: &Transaction, loaded: &Vec<Cell>) -> (next: Next)
        ensures
            next@ == next_spec(
                loaded.deep_view(),
                request.payload@,
                request.signer_public_key@,
            ),
    {
        let mut state = StateDGC { cells: copy_cells(loaded) };
        match self.attempt(request, &mut state) {
            Ok(()) => Next::Commit(collect_written(&state.cells)),
            Err(ApplyError::StateNotLoaded(address)) => Next::Load(address),
            Err(e) => Next::Reject(e),
        }
    }
}

} // verus!
