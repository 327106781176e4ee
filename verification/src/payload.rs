//! Transaction payloads: one action and the time it was made.

use crate::codec::{children_of, is_record, record_fields, record_node, Codec};
use crate::proposal::{Exchange, ExchangeModel, Role};
use crate::schema::{PropertySchema, PropertySchemaModel};
use crate::value::{PropertyValue, PropertyValueModel};
use crate::wire::{Node, NodeModel};
use vstd::prelude::*;

verus! {

/// An answer to a proposal.
#[derive(Clone, Copy, Debug, PartialEq, Eq, Structural)]
pub enum Response {
    Accept,
    Reject,
    Cancel,
    /// A partial fill of the issuer's own order, which stays open.
    AutoOpen,
    /// The last fill of the issuer's own order, which closes it.
    AutoClose,
}

impl DeepView for Response {
    type V = Response;

    open spec fn deep_view(&self) -> Response {
        *self
    }
}

impl View for Response {
    type V = Response;

    open spec fn view(&self) -> Response {
        *self
    }
}

impl Response {
    /// The number under which a variant is stored.
    pub open spec fn tag(self) -> u64 {
        match self {
            Response::Accept => 0,
            Response::Reject => 1,
            Response::Cancel => 2,
            Response::AutoOpen => 3,
            Response::AutoClose => 4,
        }
    }

    /// The variant stored under a number.
    pub open spec fn of_tag(t: u64) -> Option<Response> {
        if t == 0 {
            Some(Response::Accept)
        } else if t == 1 {
            Some(Response::Reject)
        } else if t == 2 {
            Some(Response::Cancel)
        } else if t == 3 {
            Some(Response::AutoOpen)
        } else if t == 4 {
            Some(Response::AutoClose)
        } else {
            None
        }
    }
}

impl Codec for Response {
    open spec fn node_of(m: Response) -> NodeModel {
        u64::node_of(m.tag())
    }

    open spec fn parse(n: NodeModel) -> Option<Response> {
        match u64::parse(n) {
            Some(t) => Response::of_tag(t),
            None => None,
        }
    }

    proof fn lemma_round_trip(m: Response) {
        u64::lemma_round_trip(m.tag());
    }

    fn to_node(&self) -> (n: Node) {
        let t: u64 = match self {
            Response::Accept => 0,
            Response::Reject => 1,
            Response::Cancel => 2,
            Response::AutoOpen => 3,
            Response::AutoClose => 4,
        };
        t.to_node()
    }

    fn from_node(n: &Node) -> (r: Option<Response>) {
        match u64::from_node(n) {
            Some(t) => {
                if t == 0 {
                    Some(Response::Accept)
                } else if t == 1 {
                    Some(Response::Reject)
                } else if t == 2 {
                    Some(Response::Cancel)
                } else if t == 3 {
                    Some(Response::AutoOpen)
                } else if t == 4 {
                    Some(Response::AutoClose)
                } else {
                    None
                }
            },
            None => None,
        }
    }
}

/// Registers the signer as a participant.
#[derive(Clone, Debug, PartialEq, Eq)]
pub struct CreateParticipantAction {
    pub name: String,
}

/// The mathematical value of a [`CreateParticipantAction`].
pub struct CreateParticipantActionModel {
    pub name: Seq<char>,
}

impl DeepView for CreateParticipantAction {
    type V = CreateParticipantActionModel;

    open spec fn deep_view(&self) -> CreateParticipantActionModel {
        CreateParticipantActionModel {
            name: self.name.deep_view(),
        }
    }
}

impl View for CreateParticipantAction {
    type V = CreateParticipantActionModel;

    open spec fn view(&self) -> CreateParticipantActionModel {
        self.deep_view()
    }
}

impl Codec for CreateParticipantAction {
    open spec fn node_of(m: CreateParticipantActionModel) -> NodeModel {
        NodeModel::List(
            seq![
                String::node_of(m.name),
            ],
        )
    }

    open spec fn parse(n: NodeModel) -> Option<CreateParticipantActionModel> {
        let cs = children_of(n);
        if is_record(n, 1)
            && String::parse(cs[0]) is Some {
            Some(
                CreateParticipantActionModel {
                    name: String::parse(cs[0])->Some_0,
                },
            )
        } else {
            None
        }
    }

    proof fn lemma_round_trip(m: CreateParticipantActionModel) {
        String::lemma_round_trip(m.name);
    }

    fn to_node(&self) -> (n: Node) {
        let mut fields: Vec<Node> = Vec::new();
        fields.push(self.name.to_node());
        proof {
            assert(fields.deep_view() =~= children_of(Self::node_of(self.deep_view())));
        }
        record_node(fields)
    }

    fn from_node(n: &Node) -> (r: Option<CreateParticipantAction>) {
        let cs = match record_fields(n, 1) {
            Some(cs) => cs,
            None => {
                return None;
            },
        };
        assert(cs.deep_view()[0] == cs[0].deep_view());
        let name = match String::from_node(&cs[0]) {
            Some(v) => v,
            None => {
                return None;
            },
        };
        Some(CreateParticipantAction { name })
    }
}

/// Creates a record of a table.
#[derive(Clone, Debug, PartialEq, Eq)]
pub struct CreateRecordAction {
    pub record_id: String,
    pub table: String,
    pub properties: Vec<PropertyValue>,
}

/// The mathematical value of a [`CreateRecordAction`].
pub struct CreateRecordActionModel {
    pub record_id: Seq<char>,
    pub table: Seq<char>,
    pub properties: Seq<PropertyValueModel>,
}

impl DeepView for CreateRecordAction {
    type V = CreateRecordActionModel;

    open spec fn deep_view(&self) -> CreateRecordActionModel {
        CreateRecordActionModel {
            record_id: self.record_id.deep_view(),
            table: self.table.deep_view(),
            properties: self.properties.deep_view(),
        }
    }
}

impl View for CreateRecordAction {
    type V = CreateRecordActionModel;

    open spec fn view(&self) -> CreateRecordActionModel {
        self.deep_view()
    }
}

impl Codec for CreateRecordAction {
    open spec fn node_of(m: CreateRecordActionModel) -> NodeModel {
        NodeModel::List(
            seq![
                String::node_of(m.record_id),
                String::node_of(m.table),
                <Vec<PropertyValue>>::node_of(m.properties),
            ],
        )
    }

    open spec fn parse(n: NodeModel) -> Option<CreateRecordActionModel> {
        let cs = children_of(n);
        if is_record(n, 3)
            && String::parse(cs[0]) is Some
            && String::parse(cs[1]) is Some
            && <Vec<PropertyValue>>::parse(cs[2]) is Some {
            Some(
                CreateRecordActionModel {
                    record_id: String::parse(cs[0])->Some_0,
                    table: String::parse(cs[1])->Some_0,
                    properties: <Vec<PropertyValue>>::parse(cs[2])->Some_0,
                },
            )
        } else {
            None
        }
    }

    proof fn lemma_round_trip(m: CreateRecordActionModel) {
        String::lemma_round_trip(m.record_id);
        String::lemma_round_trip(m.table);
        <Vec<PropertyValue>>::lemma_round_trip(m.properties);
    }

    fn to_node(&self) -> (n: Node) {
        let mut fields: Vec<Node> = Vec::new();
        fields.push(self.record_id.to_node());
        fields.push(self.table.to_node());
        fields.push(self.properties.to_node());
        proof {
            assert(fields.deep_view() =~= children_of(Self::node_of(self.deep_view())));
        }
        record_node(fields)
    }

    fn from_node(n: &Node) -> (r: Option<CreateRecordAction>) {
        let cs = match record_fields(n, 3) {
            Some(cs) => cs,
            None => {
                return None;
            },
        };
        assert(cs.deep_view()[0] == cs[0].deep_view());
        let record_id = match String::from_node(&cs[0]) {
            Some(v) => v,
            None => {
                return None;
            },
        };
        assert(cs.deep_view()[1] == cs[1].deep_view());
        let table = match String::from_node(&cs[1]) {
            Some(v) => v,
            None => {
                return None;
            },
        };
        assert(cs.deep_view()[2] == cs[2].deep_view());
        let properties = match <Vec<PropertyValue>>::from_node(&cs[2]) {
            Some(v) => v,
            None => {
                return None;
            },
        };
        Some(CreateRecordAction { record_id, table, properties })
    }
}

/// Makes a record final.
#[derive(Clone, Debug, PartialEq, Eq)]
pub struct FinalizeRecordAction {
    pub record_id: String,
}

/// The mathematical value of a [`FinalizeRecordAction`].
pub struct FinalizeRecordActionModel {
    pub record_id: Seq<char>,
}

impl DeepView for FinalizeRecordAction {
    type V = FinalizeRecordActionModel;

    open spec fn deep_view(&self) -> FinalizeRecordActionModel {
        FinalizeRecordActionModel {
            record_id: self.record_id.deep_view(),
        }
    }
}

impl View for FinalizeRecordAction {
    type V = FinalizeRecordActionModel;

    open spec fn view(&self) -> FinalizeRecordActionModel {
        self.deep_view()
    }
}

impl Codec for FinalizeRecordAction {
    open spec fn node_of(m: FinalizeRecordActionModel) -> NodeModel {
        NodeModel::List(
            seq![
                String::node_of(m.record_id),
            ],
        )
    }

    open spec fn parse(n: NodeModel) -> Option<FinalizeRecordActionModel> {
        let cs = children_of(n);
        if is_record(n, 1)
            && String::parse(cs[0]) is Some {
            Some(
                FinalizeRecordActionModel {
                    record_id: String::parse(cs[0])->Some_0,
                },
            )
        } else {
            None
        }
    }

    proof fn lemma_round_trip(m: FinalizeRecordActionModel) {
        String::lemma_round_trip(m.record_id);
    }

    fn to_node(&self) -> (n: Node) {
        let mut fields: Vec<Node> = Vec::new();
        fields.push(self.record_id.to_node());
        proof {
            assert(fields.deep_view() =~= children_of(Self::node_of(self.deep_view())));
        }
        record_node(fields)
    }

    fn from_node(n: &Node) -> (r: Option<FinalizeRecordAction>) {
        let cs = match record_fields(n, 1) {
            Some(cs) => cs,
            None => {
                return None;
            },
        };
        assert(cs.deep_view()[0] == cs[0].deep_view());
        let record_id = match String::from_node(&cs[0]) {
            Some(v) => v,
            None => {
                return None;
            },
        };
        Some(FinalizeRecordAction { record_id })
    }
}

/// Creates a table.
#[derive(Clone, Debug, PartialEq, Eq)]
pub struct CreateTableAction {
    pub name: String,
    pub properties: Vec<PropertySchema>,
}

/// The mathematical value of a [`CreateTableAction`].
pub struct CreateTableActionModel {
    pub name: Seq<char>,
    pub properties: Seq<PropertySchemaModel>,
}

impl DeepView for CreateTableAction {
    type V = CreateTableActionModel;

    open spec fn deep_view(&self) -> CreateTableActionModel {
        CreateTableActionModel {
            name: self.name.deep_view(),
            properties: self.properties.deep_view(),
        }
    }
}

impl View for CreateTableAction {
    type V = CreateTableActionModel;

    open spec fn view(&self) -> CreateTableActionModel {
        self.deep_view()
    }
}

impl Codec for CreateTableAction {
    open spec fn node_of(m: CreateTableActionModel) -> NodeModel {
        NodeModel::List(
            seq![
                String::node_of(m.name),
                <Vec<PropertySchema>>::node_of(m.properties),
            ],
        )
    }

    open spec fn parse(n: NodeModel) -> Option<CreateTableActionModel> {
        let cs = children_of(n);
        if is_record(n, 2)
            && String::parse(cs[0]) is Some
            && <Vec<PropertySchema>>::parse(cs[1]) is Some {
            Some(
                CreateTableActionModel {
                    name: String::parse(cs[0])->Some_0,
                    properties: <Vec<PropertySchema>>::parse(cs[1])->Some_0,
                },
            )
        } else {
            None
        }
    }

    proof fn lemma_round_trip(m: CreateTableActionModel) {
        String::lemma_round_trip(m.name);
        <Vec<PropertySchema>>::lemma_round_trip(m.properties);
    }

    fn to_node(&self) -> (n: Node) {
        let mut fields: Vec<Node> = Vec::new();
        fields.push(self.name.to_node());
        fields.push(self.properties.to_node());
        proof {
            assert(fields.deep_view() =~= children_of(Self::node_of(self.deep_view())));
        }
        record_node(fields)
    }

    fn from_node(n: &Node) -> (r: Option<CreateTableAction>) {
        let cs = match record_fields(n, 2) {
            Some(cs) => cs,
            None => {
                return None;
            },
        };
        assert(cs.deep_view()[0] == cs[0].deep_view());
        let name = match String::from_node(&cs[0]) {
            Some(v) => v,
            None => {
                return None;
            },
        };
        assert(cs.deep_view()[1] == cs[1].deep_view());
        let properties = match <Vec<PropertySchema>>::from_node(&cs[1]) {
            Some(v) => v,
            None => {
                return None;
            },
        };
        Some(CreateTableAction { name, properties })
    }
}

/// Reports new values of properties of a record.
#[derive(Clone, Debug, PartialEq, Eq)]
pub struct UpdatePropertiesAction {
    pub record_id: String,
    pub properties: Vec<PropertyValue>,
}

/// The mathematical value of a [`UpdatePropertiesAction`].
pub struct UpdatePropertiesActionModel {
    pub record_id: Seq<char>,
    pub properties: Seq<PropertyValueModel>,
}

impl DeepView for UpdatePropertiesAction {
    type V = UpdatePropertiesActionModel;

    open spec fn deep_view(&self) -> UpdatePropertiesActionModel {
        UpdatePropertiesActionModel {
            record_id: self.record_id.deep_view(),
            properties: self.properties.deep_view(),
        }
    }
}

impl View for UpdatePropertiesAction {
    type V = UpdatePropertiesActionModel;

    open spec fn view(&self) -> UpdatePropertiesActionModel {
        self.deep_view()
    }
}

impl Codec for UpdatePropertiesAction {
    open spec fn node_of(m: UpdatePropertiesActionModel) -> NodeModel {
        NodeModel::List(
            seq![
                String::node_of(m.record_id),
                <Vec<PropertyValue>>::node_of(m.properties),
            ],
        )
    }

    open spec fn parse(n: NodeModel) -> Option<UpdatePropertiesActionModel> {
        let cs = children_of(n);
        if is_record(n, 2)
            && String::parse(cs[0]) is Some
            && <Vec<PropertyValue>>::parse(cs[1]) is Some {
            Some(
                UpdatePropertiesActionModel {
                    record_id: String::parse(cs[0])->Some_0,
                    properties: <Vec<PropertyValue>>::parse(cs[1])->Some_0,
                },
            )
        } else {
            None
        }
    }

    proof fn lemma_round_trip(m: UpdatePropertiesActionModel) {
        String::lemma_round_trip(m.record_id);
        <Vec<PropertyValue>>::lemma_round_trip(m.properties);
    }

    fn to_node(&self) -> (n: Node) {
        let mut fields: Vec<Node> = Vec::new();
        fields.push(self.record_id.to_node());
        fields.push(self.properties.to_node());
        proof {
            assert(fields.deep_view() =~= children_of(Self::node_of(self.deep_view())));
        }
        record_node(fields)
    }

    fn from_node(n: &Node) -> (r: Option<UpdatePropertiesAction>) {
        let cs = match record_fields(n, 2) {
            Some(cs) => cs,
            None => {
                return None;
            },
        };
        assert(cs.deep_view()[0] == cs[0].deep_view());
        let record_id = match String::from_node(&cs[0]) {
            Some(v) => v,
            None => {
                return None;
            },
        };
        assert(cs.deep_view()[1] == cs[1].deep_view());
        let properties = match <Vec<PropertyValue>>::from_node(&cs[1]) {
            Some(v) => v,
            None => {
                return None;
            },
        };
        Some(UpdatePropertiesAction { record_id, properties })
    }
}

/// Opens a proposal.
#[derive(Clone, Debug, PartialEq, Eq)]
pub struct CreateProposalAction {
    pub proposal_id: String,
    pub record_id: String,
    pub receiving_participant: String,
    pub role: Role,
    pub properties: Vec<String>,
    pub dg_coin_amount: i64,
    pub currency_iso_codes: String,
    pub currency_quote_amount: i64,
}

/// The mathematical value of a [`CreateProposalAction`].
pub struct CreateProposalActionModel {
    pub proposal_id: Seq<char>,
    pub record_id: Seq<char>,
    pub receiving_participant: Seq<char>,
    pub role: Role,
    pub properties: Seq<Seq<char>>,
    pub dg_coin_amount: i64,
    pub currency_iso_codes: Seq<char>,
    pub currency_quote_amount: i64,
}

impl DeepView for CreateProposalAction {
    type V = CreateProposalActionModel;

    open spec fn deep_view(&self) -> CreateProposalActionModel {
        CreateProposalActionModel {
            proposal_id: self.proposal_id.deep_view(),
            record_id: self.record_id.deep_view(),
            receiving_participant: self.receiving_participant.deep_view(),
            role: self.role.deep_view(),
            properties: self.properties.deep_view(),
            dg_coin_amount: self.dg_coin_amount.deep_view(),
            currency_iso_codes: self.currency_iso_codes.deep_view(),
            currency_quote_amount: self.currency_quote_amount.deep_view(),
        }
    }
}

impl View for CreateProposalAction {
    type V = CreateProposalActionModel;

    open spec fn view(&self) -> CreateProposalActionModel {
        self.deep_view()
    }
}

impl Codec for CreateProposalAction {
    open spec fn node_of(m: CreateProposalActionModel) -> NodeModel {
        NodeModel::List(
            seq![
                String::node_of(m.proposal_id),
                String::node_of(m.record_id),
                String::node_of(m.receiving_participant),
                Role::node_of(m.role),
                <Vec<String>>::node_of(m.properties),
                i64::node_of(m.dg_coin_amount),
                String::node_of(m.currency_iso_codes),
                i64::node_of(m.currency_quote_amount),
            ],
        )
    }

    open spec fn parse(n: NodeModel) -> Option<CreateProposalActionModel> {
        let cs = children_of(n);
        if is_record(n, 8)
            && String::parse(cs[0]) is Some
            && String::parse(cs[1]) is Some
            && String::parse(cs[2]) is Some
            && Role::parse(cs[3]) is Some
            && <Vec<String>>::parse(cs[4]) is Some
            && i64::parse(cs[5]) is Some
            && String::parse(cs[6]) is Some
            && i64::parse(cs[7]) is Some {
            Some(
                CreateProposalActionModel {
                    proposal_id: String::parse(cs[0])->Some_0,
                    record_id: String::parse(cs[1])->Some_0,
                    receiving_participant: String::parse(cs[2])->Some_0,
                    role: Role::parse(cs[3])->Some_0,
                    properties: <Vec<String>>::parse(cs[4])->Some_0,
                    dg_coin_amount: i64::parse(cs[5])->Some_0,
                    currency_iso_codes: String::parse(cs[6])->Some_0,
                    currency_quote_amount: i64::parse(cs[7])->Some_0,
                },
            )
        } else {
            None
        }
    }

    proof fn lemma_round_trip(m: CreateProposalActionModel) {
        String::lemma_round_trip(m.proposal_id);
        String::lemma_round_trip(m.record_id);
        String::lemma_round_trip(m.receiving_participant);
        Role::lemma_round_trip(m.role);
        <Vec<String>>::lemma_round_trip(m.properties);
        i64::lemma_round_trip(m.dg_coin_amount);
        String::lemma_round_trip(m.currency_iso_codes);
        i64::lemma_round_trip(m.currency_quote_amount);
    }

    fn to_node(&self) -> (n: Node) {
        let mut fields: Vec<Node> = Vec::new();
        fields.push(self.proposal_id.to_node());
        fields.push(self.record_id.to_node());
        fields.push(self.receiving_participant.to_node());
        fields.push(self.role.to_node());
        fields.push(self.properties.to_node());
        fields.push(self.dg_coin_amount.to_node());
        fields.push(self.currency_iso_codes.to_node());
        fields.push(self.currency_quote_amount.to_node());
        proof {
            assert(fields.deep_view() =~= children_of(Self::node_of(self.deep_view())));
        }
        record_node(fields)
    }

    fn from_node(n: &Node) -> (r: Option<CreateProposalAction>) {
        let cs = match record_fields(n, 8) {
            Some(cs) => cs,
            None => {
                return None;
            },
        };
        assert(cs.deep_view()[0] == cs[0].deep_view());
        let proposal_id = match String::from_node(&cs[0]) {
            Some(v) => v,
            None => {
                return None;
            },
        };
        assert(cs.deep_view()[1] == cs[1].deep_view());
        let record_id = match String::from_node(&cs[1]) {
            Some(v) => v,
            None => {
                return None;
            },
        };
        assert(cs.deep_view()[2] == cs[2].deep_view());
        let receiving_participant = match String::from_node(&cs[2]) {
            Some(v) => v,
            None => {
                return None;
            },
        };
        assert(cs.deep_view()[3] == cs[3].deep_view());
        let role = match Role::from_node(&cs[3]) {
            Some(v) => v,
            None => {
                return None;
            },
        };
        assert(cs.deep_view()[4] == cs[4].deep_view());
        let properties = match <Vec<String>>::from_node(&cs[4]) {
            Some(v) => v,
            None => {
                return None;
            },
        };
        assert(cs.deep_view()[5] == cs[5].deep_view());
        let dg_coin_amount = match i64::from_node(&cs[5]) {
            Some(v) => v,
            None => {
                return None;
            },
        };
        assert(cs.deep_view()[6] == cs[6].deep_view());
        let currency_iso_codes = match String::from_node(&cs[6]) {
            Some(v) => v,
            None => {
                return None;
            },
        };
        assert(cs.deep_view()[7] == cs[7].deep_view());
        let currency_quote_amount = match i64::from_node(&cs[7]) {
            Some(v) => v,
            None => {
                return None;
            },
        };
        Some(
            CreateProposalAction {
                proposal_id,
                record_id,
                receiving_participant,
                role,
                properties,
                dg_coin_amount,
                currency_iso_codes,
                currency_quote_amount,
            }
        )
    }
}

/// Answers a proposal.
#[derive(Clone, Debug, PartialEq, Eq)]
pub struct AnswerProposalAction {
    pub proposal_id: String,
    pub response: Response,
    pub role: Role,
    pub receiving_participant: String,
    pub record_id: String,
    pub dg_coin_amount: i64,
    pub exchanges: Vec<Exchange>,
}

/// The mathematical value of a [`AnswerProposalAction`].
pub struct AnswerProposalActionModel {
    pub proposal_id: Seq<char>,
    pub response: Response,
    pub role: Role,
    pub receiving_participant: Seq<char>,
    pub record_id: Seq<char>,
    pub dg_coin_amount: i64,
    pub exchanges: Seq<ExchangeModel>,
}

impl DeepView for AnswerProposalAction {
    type V = AnswerProposalActionModel;

    open spec fn deep_view(&self) -> AnswerProposalActionModel {
        AnswerProposalActionModel {
            proposal_id: self.proposal_id.deep_view(),
            response: self.response.deep_view(),
            role: self.role.deep_view(),
            receiving_participant: self.receiving_participant.deep_view(),
            record_id: self.record_id.deep_view(),
            dg_coin_amount: self.dg_coin_amount.deep_view(),
            exchanges: self.exchanges.deep_view(),
        }
    }
}

impl View for AnswerProposalAction {
    type V = AnswerProposalActionModel;

    open spec fn view(&self) -> AnswerProposalActionModel {
        self.deep_view()
    }
}

impl Codec for AnswerProposalAction {
    open spec fn node_of(m: AnswerProposalActionModel) -> NodeModel {
        NodeModel::List(
            seq![
                String::node_of(m.proposal_id),
                Response::node_of(m.response),
                Role::node_of(m.role),
                String::node_of(m.receiving_participant),
                String::node_of(m.record_id),
                i64::node_of(m.dg_coin_amount),
                <Vec<Exchange>>::node_of(m.exchanges),
            ],
        )
    }

    open spec fn parse(n: NodeModel) -> Option<AnswerProposalActionModel> {
        let cs = children_of(n);
        if is_record(n, 7)
            && String::parse(cs[0]) is Some
            && Response::parse(cs[1]) is Some
            && Role::parse(cs[2]) is Some
            && String::parse(cs[3]) is Some
            && String::parse(cs[4]) is Some
            && i64::parse(cs[5]) is Some
            && <Vec<Exchange>>::parse(cs[6]) is Some {
            Some(
                AnswerProposalActionModel {
                    proposal_id: String::parse(cs[0])->Some_0,
                    response: Response::parse(cs[1])->Some_0,
                    role: Role::parse(cs[2])->Some_0,
                    receiving_participant: String::parse(cs[3])->Some_0,
                    record_id: String::parse(cs[4])->Some_0,
                    dg_coin_amount: i64::parse(cs[5])->Some_0,
                    exchanges: <Vec<Exchange>>::parse(cs[6])->Some_0,
                },
            )
        } else {
            None
        }
    }

    proof fn lemma_round_trip(m: AnswerProposalActionModel) {
        String::lemma_round_trip(m.proposal_id);
        Response::lemma_round_trip(m.response);
        Role::lemma_round_trip(m.role);
        String::lemma_round_trip(m.receiving_participant);
        String::lemma_round_trip(m.record_id);
        i64::lemma_round_trip(m.dg_coin_amount);
        <Vec<Exchange>>::lemma_round_trip(m.exchanges);
    }

    fn to_node(&self) -> (n: Node) {
        let mut fields: Vec<Node> = Vec::new();
        fields.push(self.proposal_id.to_node());
        fields.push(self.response.to_node());
        fields.push(self.role.to_node());
        fields.push(self.receiving_participant.to_node());
        fields.push(self.record_id.to_node());
        fields.push(self.dg_coin_amount.to_node());
        fields.push(self.exchanges.to_node());
        proof {
            assert(fields.deep_view() =~= children_of(Self::node_of(self.deep_view())));
        }
        record_node(fields)
    }

    fn from_node(n: &Node) -> (r: Option<AnswerProposalAction>) {
        let cs = match record_fields(n, 7) {
            Some(cs) => cs,
            None => {
                return None;
            },
        };
        assert(cs.deep_view()[0] == cs[0].deep_view());
        let proposal_id = match String::from_node(&cs[0]) {
            Some(v) => v,
            None => {
                return None;
            },
        };
        assert(cs.deep_view()[1] == cs[1].deep_view());
        let response = match Response::from_node(&cs[1]) {
            Some(v) => v,
            None => {
                return None;
            },
        };
        assert(cs.deep_view()[2] == cs[2].deep_view());
        let role = match Role::from_node(&cs[2]) {
            Some(v) => v,
            None => {
                return None;
            },
        };
        assert(cs.deep_view()[3] == cs[3].deep_view());
        let receiving_participant = match String::from_node(&cs[3]) {
            Some(v) => v,
            None => {
                return None;
            },
        };
        assert(cs.deep_view()[4] == cs[4].deep_view());
        let record_id = match String::from_node(&cs[4]) {
            Some(v) => v,
            None => {
                return None;
            },
        };
        assert(cs.deep_view()[5] == cs[5].deep_view());
        let dg_coin_amount = match i64::from_node(&cs[5]) {
            Some(v) => v,
            None => {
                return None;
            },
        };
        assert(cs.deep_view()[6] == cs[6].deep_view());
        let exchanges = match <Vec<Exchange>>::from_node(&cs[6]) {
            Some(v) => v,
            None => {
                return None;
            },
        };
        Some(
            AnswerProposalAction {
                proposal_id,
                response,
                role,
                receiving_participant,
                record_id,
                dg_coin_amount,
                exchanges,
            }
        )
    }
}

/// Takes a reporter's authorization away.
#[derive(Clone, Debug, PartialEq, Eq)]
pub struct RevokeReporterAction {
    pub record_id: String,
    pub reporter_id: String,
    pub properties: Vec<String>,
}

/// The mathematical value of a [`RevokeReporterAction`].
pub struct RevokeReporterActionModel {
    pub record_id: Seq<char>,
    pub reporter_id: Seq<char>,
    pub properties: Seq<Seq<char>>,
}

impl DeepView for RevokeReporterAction {
    type V = RevokeReporterActionModel;

    open spec fn deep_view(&self) -> RevokeReporterActionModel {
        RevokeReporterActionModel {
            record_id: self.record_id.deep_view(),
            reporter_id: self.reporter_id.deep_view(),
            properties: self.properties.deep_view(),
        }
    }
}

impl View for RevokeReporterAction {
    type V = RevokeReporterActionModel;

    open spec fn view(&self) -> RevokeReporterActionModel {
        self.deep_view()
    }
}

impl Codec for RevokeReporterAction {
    open spec fn node_of(m: RevokeReporterActionModel) -> NodeModel {
        NodeModel::List(
            seq![
                String::node_of(m.record_id),
                String::node_of(m.reporter_id),
                <Vec<String>>::node_of(m.properties),
            ],
        )
    }

    open spec fn parse(n: NodeModel) -> Option<RevokeReporterActionModel> {
        let cs = children_of(n);
        if is_record(n, 3)
            && String::parse(cs[0]) is Some
            && String::parse(cs[1]) is Some
            && <Vec<String>>::parse(cs[2]) is Some {
            Some(
                RevokeReporterActionModel {
                    record_id: String::parse(cs[0])->Some_0,
                    reporter_id: String::parse(cs[1])->Some_0,
                    properties: <Vec<String>>::parse(cs[2])->Some_0,
                },
            )
        } else {
            None
        }
    }

    proof fn lemma_round_trip(m: RevokeReporterActionModel) {
        String::lemma_round_trip(m.record_id);
        String::lemma_round_trip(m.reporter_id);
        <Vec<String>>::lemma_round_trip(m.properties);
    }

    fn to_node(&self) -> (n: Node) {
        let mut fields: Vec<Node> = Vec::new();
        fields.push(self.record_id.to_node());
        fields.push(self.reporter_id.to_node());
        fields.push(self.properties.to_node());
        proof {
            assert(fields.deep_view() =~= children_of(Self::node_of(self.deep_view())));
        }
        record_node(fields)
    }

    fn from_node(n: &Node) -> (r: Option<RevokeReporterAction>) {
        let cs = match record_fields(n, 3) {
            Some(cs) => cs,
            None => {
                return None;
            },
        };
        assert(cs.deep_view()[0] == cs[0].deep_view());
        let record_id = match String::from_node(&cs[0]) {
            Some(v) => v,
            None => {
                return None;
            },
        };
        assert(cs.deep_view()[1] == cs[1].deep_view());
        let reporter_id = match String::from_node(&cs[1]) {
            Some(v) => v,
            None => {
                return None;
            },
        };
        assert(cs.deep_view()[2] == cs[2].deep_view());
        let properties = match <Vec<String>>::from_node(&cs[2]) {
            Some(v) => v,
            None => {
                return None;
            },
        };
        Some(RevokeReporterAction { record_id, reporter_id, properties })
    }
}

/// The action of a transaction.
#[derive(Clone, Debug, PartialEq, Eq)]
pub enum Action {
    CreateParticipant(CreateParticipantAction),
    CreateRecord(CreateRecordAction),
    FinalizeRecord(FinalizeRecordAction),
    CreateTable(CreateTableAction),
    UpdateProperties(UpdatePropertiesAction),
    CreateProposal(CreateProposalAction),
    AnswerProposal(AnswerProposalAction),
    RevokeReporter(RevokeReporterAction),
}

/// The mathematical value of a [`Action`].
pub enum ActionModel {
    CreateParticipant(CreateParticipantActionModel),
    CreateRecord(CreateRecordActionModel),
    FinalizeRecord(FinalizeRecordActionModel),
    CreateTable(CreateTableActionModel),
    UpdateProperties(UpdatePropertiesActionModel),
    CreateProposal(CreateProposalActionModel),
    AnswerProposal(AnswerProposalActionModel),
    RevokeReporter(RevokeReporterActionModel),
}

impl DeepView for Action {
    type V = ActionModel;

    open spec fn deep_view(&self) -> ActionModel {
        match self {
            Action::CreateParticipant(a) => ActionModel::CreateParticipant(a.deep_view()),
            Action::CreateRecord(a) => ActionModel::CreateRecord(a.deep_view()),
            Action::FinalizeRecord(a) => ActionModel::FinalizeRecord(a.deep_view()),
            Action::CreateTable(a) => ActionModel::CreateTable(a.deep_view()),
            Action::UpdateProperties(a) => ActionModel::UpdateProperties(a.deep_view()),
            Action::CreateProposal(a) => ActionModel::CreateProposal(a.deep_view()),
            Action::AnswerProposal(a) => ActionModel::AnswerProposal(a.deep_view()),
            Action::RevokeReporter(a) => ActionModel::RevokeReporter(a.deep_view()),
        }
    }
}

impl View for Action {
    type V = ActionModel;

    open spec fn view(&self) -> ActionModel {
        self.deep_view()
    }
}

impl Codec for Action {
    open spec fn node_of(m: ActionModel) -> NodeModel {
        match m {
            ActionModel::CreateParticipant(a) => NodeModel::List(
                seq![u64::node_of(0), CreateParticipantAction::node_of(a)]
            ),
            ActionModel::CreateRecord(a) => NodeModel::List(
                seq![u64::node_of(1), CreateRecordAction::node_of(a)]
            ),
            ActionModel::FinalizeRecord(a) => NodeModel::List(
                seq![u64::node_of(2), FinalizeRecordAction::node_of(a)]
            ),
            ActionModel::CreateTable(a) => NodeModel::List(
                seq![u64::node_of(3), CreateTableAction::node_of(a)]
            ),
            ActionModel::UpdateProperties(a) => NodeModel::List(
                seq![u64::node_of(4), UpdatePropertiesAction::node_of(a)]
            ),
            ActionModel::CreateProposal(a) => NodeModel::List(
                seq![u64::node_of(5), CreateProposalAction::node_of(a)]
            ),
            ActionModel::AnswerProposal(a) => NodeModel::List(
                seq![u64::node_of(6), AnswerProposalAction::node_of(a)]
            ),
            ActionModel::RevokeReporter(a) => NodeModel::List(
                seq![u64::node_of(7), RevokeReporterAction::node_of(a)]
            ),
        }
    }

    open spec fn parse(n: NodeModel) -> Option<ActionModel> {
        let cs = children_of(n);
        if is_record(n, 2) && u64::parse(cs[0]) is Some {
            let t = u64::parse(cs[0])->Some_0;
            if t == 0 {
                match CreateParticipantAction::parse(cs[1]) {
                    Some(a) => Some(ActionModel::CreateParticipant(a)),
                    None => None,
                }
            } else if t == 1 {
                match CreateRecordAction::parse(cs[1]) {
                    Some(a) => Some(ActionModel::CreateRecord(a)),
                    None => None,
                }
            } else if t == 2 {
                match FinalizeRecordAction::parse(cs[1]) {
                    Some(a) => Some(ActionModel::FinalizeRecord(a)),
                    None => None,
                }
            } else if t == 3 {
                match CreateTableAction::parse(cs[1]) {
                    Some(a) => Some(ActionModel::CreateTable(a)),
                    None => None,
                }
            } else if t == 4 {
                match UpdatePropertiesAction::parse(cs[1]) {
                    Some(a) => Some(ActionModel::UpdateProperties(a)),
                    None => None,
                }
            } else if t == 5 {
                match CreateProposalAction::parse(cs[1]) {
                    Some(a) => Some(ActionModel::CreateProposal(a)),
                    None => None,
                }
            } else if t == 6 {
                match AnswerProposalAction::parse(cs[1]) {
                    Some(a) => Some(ActionModel::AnswerProposal(a)),
                    None => None,
                }
            } else if t == 7 {
                match RevokeReporterAction::parse(cs[1]) {
                    Some(a) => Some(ActionModel::RevokeReporter(a)),
                    None => None,
                }
            } else {
                None
            }
        } else {
            None
        }
    }

    proof fn lemma_round_trip(m: ActionModel) {
        match m {
            ActionModel::CreateParticipant(a) => {
                u64::lemma_round_trip(0);
                CreateParticipantAction::lemma_round_trip(a);
            },
            ActionModel::CreateRecord(a) => {
                u64::lemma_round_trip(1);
                CreateRecordAction::lemma_round_trip(a);
            },
            ActionModel::FinalizeRecord(a) => {
                u64::lemma_round_trip(2);
                FinalizeRecordAction::lemma_round_trip(a);
            },
            ActionModel::CreateTable(a) => {
                u64::lemma_round_trip(3);
                CreateTableAction::lemma_round_trip(a);
            },
            ActionModel::UpdateProperties(a) => {
                u64::lemma_round_trip(4);
                UpdatePropertiesAction::lemma_round_trip(a);
            },
            ActionModel::CreateProposal(a) => {
                u64::lemma_round_trip(5);
                CreateProposalAction::lemma_round_trip(a);
            },
            ActionModel::AnswerProposal(a) => {
                u64::lemma_round_trip(6);
                AnswerProposalAction::lemma_round_trip(a);
            },
            ActionModel::RevokeReporter(a) => {
                u64::lemma_round_trip(7);
                RevokeReporterAction::lemma_round_trip(a);
            },
        }
    }

    fn to_node(&self) -> (n: Node) {
        let mut fields: Vec<Node> = Vec::new();
        match self {
            Action::CreateParticipant(a) => {
                let t: u64 = 0;
                fields.push(t.to_node());
                fields.push(a.to_node());
            },
            Action::CreateRecord(a) => {
                let t: u64 = 1;
                fields.push(t.to_node());
                fields.push(a.to_node());
            },
            Action::FinalizeRecord(a) => {
                let t: u64 = 2;
                fields.push(t.to_node());
                fields.push(a.to_node());
            },
            Action::CreateTable(a) => {
                let t: u64 = 3;
                fields.push(t.to_node());
                fields.push(a.to_node());
            },
            Action::UpdateProperties(a) => {
                let t: u64 = 4;
                fields.push(t.to_node());
                fields.push(a.to_node());
            },
            Action::CreateProposal(a) => {
                let t: u64 = 5;
                fields.push(t.to_node());
                fields.push(a.to_node());
            },
            Action::AnswerProposal(a) => {
                let t: u64 = 6;
                fields.push(t.to_node());
                fields.push(a.to_node());
            },
            Action::RevokeReporter(a) => {
                let t: u64 = 7;
                fields.push(t.to_node());
                fields.push(a.to_node());
            },
        }
        proof {
            assert(fields.deep_view() =~= children_of(Self::node_of(self.deep_view())));
        }
        record_node(fields)
    }

    fn from_node(n: &Node) -> (r: Option<Action>) {
        let cs = match record_fields(n, 2) {
            Some(cs) => cs,
            None => {
                return None;
            },
        };
        assert(cs.deep_view()[0] == cs[0].deep_view());
        assert(cs.deep_view()[1] == cs[1].deep_view());
        let t = match u64::from_node(&cs[0]) {
            Some(t) => t,
            None => {
                return None;
            },
        };
        if t == 0 {
            match CreateParticipantAction::from_node(&cs[1]) {
                Some(a) => Some(Action::CreateParticipant(a)),
                None => None,
            }
        } else if t == 1 {
            match CreateRecordAction::from_node(&cs[1]) {
                Some(a) => Some(Action::CreateRecord(a)),
                None => None,
            }
        } else if t == 2 {
            match FinalizeRecordAction::from_node(&cs[1]) {
                Some(a) => Some(Action::FinalizeRecord(a)),
                None => None,
            }
        } else if t == 3 {
            match CreateTableAction::from_node(&cs[1]) {
                Some(a) => Some(Action::CreateTable(a)),
                None => None,
            }
        } else if t == 4 {
            match UpdatePropertiesAction::from_node(&cs[1]) {
                Some(a) => Some(Action::UpdateProperties(a)),
                None => None,
            }
        } else if t == 5 {
            match CreateProposalAction::from_node(&cs[1]) {
                Some(a) => Some(Action::CreateProposal(a)),
                None => None,
            }
        } else if t == 6 {
            match AnswerProposalAction::from_node(&cs[1]) {
                Some(a) => Some(Action::AnswerProposal(a)),
                None => None,
            }
        } else if t == 7 {
            match RevokeReporterAction::from_node(&cs[1]) {
                Some(a) => Some(Action::RevokeReporter(a)),
                None => None,
            }
        } else {
            None
        }
    }
}

/// What a transaction carries.
#[derive(Clone, Debug, PartialEq, Eq)]
pub struct Payload {
    pub action: Action,
    /// When the transaction was made; never zero.
    pub timestamp: u64,
}

/// The mathematical value of a [`Payload`].
pub struct PayloadModel {
    pub action: ActionModel,
    pub timestamp: u64,
}

impl DeepView for Payload {
    type V = PayloadModel;

    open spec fn deep_view(&self) -> PayloadModel {
        PayloadModel {
            action: self.action.deep_view(),
            timestamp: self.timestamp.deep_view(),
        }
    }
}

impl View for Payload {
    type V = PayloadModel;

    open spec fn view(&self) -> PayloadModel {
        self.deep_view()
    }
}

impl Codec for Payload {
    open spec fn node_of(m: PayloadModel) -> NodeModel {
        NodeModel::List(
            seq![
                Action::node_of(m.action),
                u64::node_of(m.timestamp),
            ],
        )
    }

    open spec fn parse(n: NodeModel) -> Option<PayloadModel> {
        let cs = children_of(n);
        if is_record(n, 2)
            && Action::parse(cs[0]) is Some
            && u64::parse(cs[1]) is Some {
            Some(
                PayloadModel {
                    action: Action::parse(cs[0])->Some_0,
                    timestamp: u64::parse(cs[1])->Some_0,
                },
            )
        } else {
            None
        }
    }

    proof fn lemma_round_trip(m: PayloadModel) {
        Action::lemma_round_trip(m.action);
        u64::lemma_round_trip(m.timestamp);
    }

    fn to_node(&self) -> (n: Node) {
        let mut fields: Vec<Node> = Vec::new();
        fields.push(self.action.to_node());
        fields.push(self.timestamp.to_node());
        proof {
            assert(fields.deep_view() =~= children_of(Self::node_of(self.deep_view())));
        }
        record_node(fields)
    }

    fn from_node(n: &Node) -> (r: Option<Payload>) {
        let cs = match record_fields(n, 2) {
            Some(cs) => cs,
            None => {
                return None;
            },
        };
        assert(cs.deep_view()[0] == cs[0].deep_view());
        let action = match Action::from_node(&cs[0]) {
            Some(v) => v,
            None => {
                return None;
            },
        };
        assert(cs.deep_view()[1] == cs[1].deep_view());
        let timestamp = match u64::from_node(&cs[1]) {
            Some(v) => v,
            None => {
                return None;
            },
        };
        Some(Payload { action, timestamp })
    }
}
} // verus!
