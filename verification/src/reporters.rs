//! Taking a reporter's authorization away.

use crate::error::{outcome, reject, rejection, ApplyError, ApplyErrorModel};
use crate::handler::TransactionHandlerDGC;
use crate::payload::{RevokeReporterAction, RevokeReporterActionModel};
use crate::property::{Property, PropertyModel, Reporter, ReporterModel};
use crate::record::RecordModel;
use crate::registry::is_owner;
use crate::state::{journal_with_property, property_at, record_at, CellModel, StateDGC, Step};
use crate::text::text_eq;
use vstd::prelude::*;
use vstd::string::*;

verus! {

/// Why the signer cannot revoke reporters of a record, if it cannot: it must
/// be the current owner, and the record must not be final.
pub open spec fn revoker_fault(record: RecordModel, signer: Seq<char>) -> Option<ApplyErrorModel> {
    if record.owners.len() == 0 {
        Some(rejection("Owner was not found"@, ""@))
    } else if !is_owner(record, signer) {
        Some(rejection("Must be owner to revoke reporters"@, ""@))
    } else if record.field_final {
        Some(rejection("Record is final: "@, record.record_id))
    } else {
        None
    }
}

/// Whether the reporter can be revoked, looking at the reporters from
/// position `i` on, `seen` telling whether it was found before: the first
/// entry of the reporter that is not authorized is a fault, and so is a list
/// without the reporter.
pub open spec fn revocable_from(
    reporters: Seq<ReporterModel>,
    reporter_id: Seq<char>,
    i: int,
    seen: bool,
) -> Result<(), ApplyErrorModel>
    decreases reporters.len() - i,
{
    if i < 0 || i >= reporters.len() {
        if seen {
            Ok(())
        } else {
            Err(rejection("Reporter cannot be revoked: "@, reporter_id))
        }
    } else if reporters[i].public_key == reporter_id {
        if !reporters[i].authorized {
            Err(rejection("Reporter is already unauthorized."@, ""@))
        } else {
            revocable_from(reporters, reporter_id, i + 1, true)
        }
    } else {
        revocable_from(reporters, reporter_id, i + 1, seen)
    }
}

/// A reporter after the revocation: without authorization where it is the
/// revoked one.
pub open spec fn revoked(reporter: ReporterModel, reporter_id: Seq<char>) -> ReporterModel {
    if reporter.public_key == reporter_id {
        ReporterModel { authorized: false, ..reporter }
    } else {
        reporter
    }
}

/// The reporters after the revocation.
pub open spec fn reporters_after_revocation(
    reporters: Seq<ReporterModel>,
    reporter_id: Seq<char>,
) -> Seq<ReporterModel> {
    Seq::new(reporters.len(), |k: int| revoked(reporters[k], reporter_id))
}

/// What the revocation does to the properties named from position `i` on:
/// each must exist and have the reporter, authorized, and is stored with the
/// reporter's authorization taken away.
pub open spec fn revoke_from(
    journal: Seq<CellModel>,
    record_id: Seq<char>,
    names: Seq<Seq<char>>,
    reporter_id: Seq<char>,
    i: int,
) -> Step
    decreases names.len() - i,
{
    if i < 0 || i >= names.len() {
        (journal, Ok(()))
    } else {
        match property_at(journal, record_id, names[i]) {
            Err(e) => (journal, Err(e)),
            Ok(None) => (journal, Err(rejection("Property does not exists"@, ""@))),
            Ok(Some(property)) => match revocable_from(property.reporters, reporter_id, 0, false) {
                Err(e) => (journal, Err(e)),
                Ok(()) => {
                    let (next, r) = journal_with_property(
                        journal,
                        record_id,
                        names[i],
                        PropertyModel {
                            reporters: reporters_after_revocation(property.reporters, reporter_id),
                            ..property
                        },
                    );
                    match r {
                        Err(e) => (next, Err(e)),
                        Ok(()) => revoke_from(next, record_id, names, reporter_id, i + 1),
                    }
                },
            },
        }
    }
}

/// What revoking a reporter does.
#[verifier::opaque]
pub open spec fn revoke_reporter_spec(
    journal: Seq<CellModel>,
    payload: RevokeReporterActionModel,
    signer: Seq<char>,
) -> Step {
    match record_at(journal, payload.record_id) {
        Err(e) => (journal, Err(e)),
        Ok(None) => (journal, Err(rejection("Record does not exists: "@, payload.record_id))),
        Ok(Some(record)) => match revoker_fault(record, signer) {
            Some(e) => (journal, Err(e)),
            None => revoke_from(
                journal,
                payload.record_id,
                payload.properties,
                payload.reporter_id,
                0,
            ),
        },
    }
}

/// Takes the authorization of a reporter away in a list of reporters.
pub fn revoke_in(reporters: &Vec<Reporter>, reporter_id: &str) -> (r: Result<
    Vec<Reporter>,
    ApplyError,
>)
    ensures
        match r {
            Ok(out) => revocable_from(reporters.deep_view(), reporter_id@, 0, false) == Ok::<
                (),
                ApplyErrorModel,
            >(()) && out.deep_view() == reporters_after_revocation(
                reporters.deep_view(),
                reporter_id@,
            ),
            Err(e) => revocable_from(reporters.deep_view(), reporter_id@, 0, false) == Err::<
                (),
                ApplyErrorModel,
            >(e@),
        },
{
    let mut out: Vec<Reporter> = Vec::new();
    let mut seen = false;
    let mut i: usize = 0;
    while i < reporters.len()
        invariant
            i <= reporters.len(),
            out.len() == i,
            revocable_from(reporters.deep_view(), reporter_id@, 0, false) == revocable_from(
                reporters.deep_view(),
                reporter_id@,
                i as int,
                seen,
            ),
            forall|k: int|
                0 <= k < i ==> (#[trigger] out[k]).deep_view() == revoked(
                    reporters[k].deep_view(),
                    reporter_id@,
                ),
        decreases reporters.len() - i,
    {
        let reporter = &reporters[i];
        let mut authorized = reporter.authorized;
        if text_eq(reporter.public_key.as_str(), reporter_id) {
            if !reporter.authorized {
                return Err(reject("Reporter is already unauthorized.", ""));
            }
            authorized = false;
            seen = true;
        }
        out.push(
            Reporter { public_key: reporter.public_key.clone(), authorized, index: reporter.index },
        );
        i = i + 1;
    }
    if !seen {
        return Err(reject("Reporter cannot be revoked: ", reporter_id));
    }
    proof {
        assert(out.deep_view() =~= reporters_after_revocation(
            reporters.deep_view(),
            reporter_id@,
        ));
    }
    Ok(out)
}

impl TransactionHandlerDGC {
    /// Takes the authorization of a reporter away for the named properties.
    pub fn revoke(
        &self,
        state: &mut StateDGC,
        record_id: &str,
        names: &Vec<String>,
        reporter_id: &str,
    ) -> (r: Result<(), ApplyError>)
        ensures
            (final(state)@, outcome(r)) == revoke_from(
                old(state)@,
                record_id@,
                names.deep_view(),
                reporter_id@,
                0,
            ),
    {
        let mut i: usize = 0;
        while i < names.len()
            invariant
                i <= names.len(),
                revoke_from(old(state)@, record_id@, names.deep_view(), reporter_id@, 0)
                    == revoke_from(state@, record_id@, names.deep_view(), reporter_id@, i as int),
            decreases names.len() - i,
        {
            let name = names[i].as_str();
            let mut property = match state.get_property(record_id, name) {
                Ok(Some(property)) => property,
                Ok(None) => {
                    return Err(reject("Property does not exists", ""));
                },
                Err(e) => {
                    return Err(e);
                },
            };
            property.reporters = match revoke_in(&property.reporters, reporter_id) {
                Ok(reporters) => reporters,
                Err(e) => {
                    return Err(e);
                },
            };
            match state.set_property(record_id, name, property) {
                Ok(()) => {},
                Err(e) => {
                    return Err(e);
                },
            }
            i = i + 1;
        }
        Ok(())
    }

    /// Revokes a reporter.
    pub fn _revoke_reporter(
        &self,
        payload: RevokeReporterAction,
        state: &mut StateDGC,
        signer: &str,
    ) -> (r: Result<(), ApplyError>)
        ensures
            (final(state)@, outcome(r)) == revoke_reporter_spec(old(state)@, payload@, signer@),
    {
        reveal(revoke_reporter_spec);
        let record_id = payload.record_id.as_str();
        let record = match state.get_record(record_id) {
            Ok(Some(record)) => record,
            Ok(None) => {
                return Err(reject("Record does not exists: ", record_id));
            },
            Err(e) => {
                return Err(e);
            },
        };
        if record.owners.len() == 0 {
            return Err(reject("Owner was not found", ""));
        }
        let owner = &record.owners[record.owners.len() - 1];
        if !text_eq(owner.participant_id.as_str(), signer) {
            return Err(reject("Must be owner to revoke reporters", ""));
        }
        if record.field_final {
            return Err(reject("Record is final: ", record.record_id.as_str()));
        }
        self.revoke(state, record_id, &payload.properties, payload.reporter_id.as_str())
    }
}

} // verus!
