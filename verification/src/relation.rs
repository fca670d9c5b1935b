//! Relations: typed, attributed, directed edges between two endpoints.

use crate::attributes::Attributes;
use crate::endpoint::{
    elf_ref_parts, is_block_id, is_block_id_text, is_remote, is_remote_text, lemma_kinds_exclude,
    parse_elf_ref,
};
use crate::error::TypesError;
use crate::json::JsonModel;
use crate::text::{chars_of, is_identifier, is_identifier_text};
use vstd::prelude::*;
use vstd::string::StringExecFns;

verus! {

/// A directed edge from one endpoint to another. An endpoint names a block of
/// the same document, or is a reference into another document.
#[derive(Debug, Clone)]
pub struct Relation {
    pub from: String,
    pub to: String,
    pub relation_type: String,
    pub attributes: Attributes,
}

/// A relation as contracts speak of it.
pub struct RelationModel {
    pub from: Seq<char>,
    pub to: Seq<char>,
    pub relation_type: Seq<char>,
    pub attributes: Map<Seq<char>, JsonModel>,
}

impl View for Relation {
    type V = RelationModel;

    open spec fn view(&self) -> RelationModel {
        RelationModel {
            from: self.from@,
            to: self.to@,
            relation_type: self.relation_type@,
            attributes: self.attributes@,
        }
    }
}

/// The relations of a sequence, each as contracts speak of it.
pub open spec fn relation_models(relations: Seq<Relation>) -> Seq<RelationModel> {
    Seq::new(relations.len(), |i: int| relations[i]@)
}

/// What keeps a relation from being valid.
#[derive(Debug, Clone, Copy, PartialEq, Eq, Structural)]
pub enum RelationFault {
    /// The source endpoint is empty.
    EmptyFrom,
    /// The target endpoint is empty.
    EmptyTo,
    /// The source endpoint has the scheme of a reference and not its form.
    MalformedFrom,
    /// The source endpoint is neither a block identifier nor a reference.
    UnrecognizedFrom,
    /// The target endpoint has the scheme of a reference and not its form.
    MalformedTo,
    /// The target endpoint is neither a block identifier nor a reference.
    UnrecognizedTo,
    /// The relation type is empty.
    EmptyType,
    /// The relation type is no identifier.
    InvalidType,
    /// Both endpoints are the same block identifier.
    SelfReference,
}

/// The endpoint is a block identifier or a well-formed reference into another
/// document.
pub open spec fn endpoint_well_formed(s: Seq<char>) -> bool {
    is_block_id(s) || elf_ref_parts(s) is Some
}

/// The relation is valid: both endpoints are well formed, the relation type
/// is an identifier, and the relation does not lead from a block of this
/// document to the same block.
pub open spec fn relation_valid(r: RelationModel) -> bool {
    &&& endpoint_well_formed(r.from)
    &&& endpoint_well_formed(r.to)
    &&& is_identifier(r.relation_type)
    &&& !(r.from == r.to && is_block_id(r.from))
}

/// What is wrong with an endpoint that is not empty, if anything is:
/// `Some(true)` where it has the scheme of a reference and not its form,
/// `Some(false)` where it is neither a block identifier nor a reference.
pub open spec fn endpoint_fault(s: Seq<char>) -> Option<bool> {
    if is_remote(s) {
        if elf_ref_parts(s) is None {
            Some(true)
        } else {
            None
        }
    } else if is_block_id(s) {
        None
    } else {
        Some(false)
    }
}

/// The first thing that keeps the relation from being valid, in the order in
/// which the rules are checked; `None` for a valid relation.
pub open spec fn relation_fault(r: RelationModel) -> Option<RelationFault> {
    if r.from.len() == 0 {
        Some(RelationFault::EmptyFrom)
    } else if r.to.len() == 0 {
        Some(RelationFault::EmptyTo)
    } else if endpoint_fault(r.from) == Some(true) {
        Some(RelationFault::MalformedFrom)
    } else if endpoint_fault(r.from) == Some(false) {
        Some(RelationFault::UnrecognizedFrom)
    } else if endpoint_fault(r.to) == Some(true) {
        Some(RelationFault::MalformedTo)
    } else if endpoint_fault(r.to) == Some(false) {
        Some(RelationFault::UnrecognizedTo)
    } else if r.relation_type.len() == 0 {
        Some(RelationFault::EmptyType)
    } else if !is_identifier(r.relation_type) {
        Some(RelationFault::InvalidType)
    } else if r.from == r.to && is_block_id(r.from) {
        Some(RelationFault::SelfReference)
    } else {
        None
    }
}

/// The message that reports a fault of the relation.
pub open spec fn relation_fault_message(fault: RelationFault, r: RelationModel) -> Seq<char> {
    match fault {
        RelationFault::EmptyFrom => "Relation 'from' field cannot be empty"@,
        RelationFault::EmptyTo => "Relation 'to' field cannot be empty"@,
        RelationFault::MalformedFrom => "Invalid reference in relation 'from' field: "@ + r.from,
        RelationFault::UnrecognizedFrom => "Unrecognized endpoint in relation 'from' field: "@
            + r.from,
        RelationFault::MalformedTo => "Invalid reference in relation 'to' field: "@ + r.to,
        RelationFault::UnrecognizedTo => "Unrecognized endpoint in relation 'to' field: "@ + r.to,
        RelationFault::EmptyType => "Relation type cannot be empty"@,
        RelationFault::InvalidType => "Invalid relation type: "@ + r.relation_type,
        RelationFault::SelfReference => "Self-reference not allowed: "@ + r.from + " -> "@ + r.to,
    }
}

/// A relation has a fault exactly if it is not valid.
pub proof fn lemma_fault_iff_invalid(r: RelationModel)
    ensures
        relation_fault(r) is None <==> relation_valid(r),
{
    lemma_kinds_exclude(r.from);
    lemma_kinds_exclude(r.to);
}

/// What is wrong with an endpoint that is not empty, if anything is.
fn endpoint_fault_of(text: &str) -> (r: Option<bool>)
    ensures
        r == endpoint_fault(text@),
{
    let chars = chars_of(text);
    if is_remote_text(chars.as_slice()) {
        if parse_elf_ref(chars.as_slice()).is_none() {
            Some(true)
        } else {
            None
        }
    } else if is_block_id_text(text) {
        None
    } else {
        Some(false)
    }
}

impl Relation {
    /// The first thing that keeps the relation from being valid, if anything
    /// does.
    pub fn fault(&self) -> (r: Option<RelationFault>)
        ensures
            r == relation_fault(self@),
    {
        if self.from.as_str().is_empty() {
            return Some(RelationFault::EmptyFrom);
        }
        if self.to.as_str().is_empty() {
            return Some(RelationFault::EmptyTo);
        }
        match endpoint_fault_of(self.from.as_str()) {
            Some(true) => {
                return Some(RelationFault::MalformedFrom);
            },
            Some(false) => {
                return Some(RelationFault::UnrecognizedFrom);
            },
            None => {},
        }
        match endpoint_fault_of(self.to.as_str()) {
            Some(true) => {
                return Some(RelationFault::MalformedTo);
            },
            Some(false) => {
                return Some(RelationFault::UnrecognizedTo);
            },
            None => {},
        }
        if self.relation_type.as_str().is_empty() {
            return Some(RelationFault::EmptyType);
        }
        let relation_type = chars_of(self.relation_type.as_str());
        if !is_identifier_text(relation_type.as_slice()) {
            return Some(RelationFault::InvalidType);
        }
        if self.from == self.to && is_block_id_text(self.from.as_str()) {
            return Some(RelationFault::SelfReference);
        }
        None
    }

    /// Checks the rules of a relation and reports the first that is broken.
    pub fn validate(&self) -> (r: Result<(), TypesError>)
        ensures
            r is Ok <==> relation_valid(self@),
            match relation_fault(self@) {
                None => r is Ok,
                Some(fault) => r matches Err(TypesError::RelationValidation { message })
                    && message@ == relation_fault_message(fault, self@),
            },
    {
        proof {
            lemma_fault_iff_invalid(self@);
        }
        let message = match self.fault() {
            None => {
                return Ok(());
            },
            Some(RelationFault::EmptyFrom) => String::from_str(
                "Relation 'from' field cannot be empty",
            ),
            Some(RelationFault::EmptyTo) => String::from_str("Relation 'to' field cannot be empty"),
            Some(RelationFault::MalformedFrom) => String::from_str(
                "Invalid reference in relation 'from' field: ",
            ).concat(self.from.as_str()),
            Some(RelationFault::UnrecognizedFrom) => String::from_str(
                "Unrecognized endpoint in relation 'from' field: ",
            ).concat(self.from.as_str()),
            Some(RelationFault::MalformedTo) => String::from_str(
                "Invalid reference in relation 'to' field: ",
            ).concat(self.to.as_str()),
            Some(RelationFault::UnrecognizedTo) => String::from_str(
                "Unrecognized endpoint in relation 'to' field: ",
            ).concat(self.to.as_str()),
            Some(RelationFault::EmptyType) => String::from_str("Relation type cannot be empty"),
            Some(RelationFault::InvalidType) => String::from_str("Invalid relation type: ").concat(
                self.relation_type.as_str(),
            ),
            Some(RelationFault::SelfReference) => String::from_str(
                "Self-reference not allowed: ",
            ).concat(self.from.as_str()).concat(" -> ").concat(self.to.as_str()),
        };
        Err(TypesError::RelationValidation { message })
    }

    /// The relation between the given endpoints, with no attributes.
    pub fn new(from: String, to: String, relation_type: String) -> (relation: Self)
        ensures
            relation@ == (RelationModel {
                from: from@,
                to: to@,
                relation_type: relation_type@,
                attributes: Map::empty(),
            }),
    {
        Relation { from, to, relation_type, attributes: Attributes::new() }
    }

    /// The same relation with the given attributes in place of its own.
    pub fn with_attributes(self, attributes: Attributes) -> (relation: Self)
        ensures
            relation@ == (RelationModel { attributes: attributes@, ..self@ }),
    {
        Relation {
            from: self.from,
            to: self.to,
            relation_type: self.relation_type,
            attributes,
        }
    }
}

/// A relation from a block of this document to the same block is not valid,
/// whatever its type.
pub proof fn lemma_self_reference_rejected(x: Seq<char>, relation_type: Seq<char>)
    requires
        is_block_id(x),
    ensures
        !relation_valid(
            RelationModel { from: x, to: x, relation_type, attributes: Map::empty() },
        ),
        is_identifier(relation_type) ==> relation_fault(
            RelationModel { from: x, to: x, relation_type, attributes: Map::empty() },
        ) == Some(RelationFault::SelfReference),
{
    lemma_kinds_exclude(x);
}

/// A relation from a block of this document to a well-formed reference is
/// valid if its type is an identifier, even where the reference names the
/// same text as its anchor: only two ends within one document are compared.
/// So is a relation from a reference to the same reference.
pub proof fn lemma_reference_accepted(x: Seq<char>, reference: Seq<char>, relation_type: Seq<char>)
    requires
        is_block_id(x),
        elf_ref_parts(reference) is Some,
        is_identifier(relation_type),
    ensures
        relation_valid(
            RelationModel { from: x, to: reference, relation_type, attributes: Map::empty() },
        ),
        relation_valid(
            RelationModel {
                from: reference,
                to: reference,
                relation_type,
                attributes: Map::empty(),
            },
        ),
{
    lemma_kinds_exclude(x);
    lemma_kinds_exclude(reference);
}

/// A text that is neither a block identifier nor a reference is no end of a
/// valid relation.
pub proof fn lemma_unrecognized_endpoint_rejected(r: RelationModel)
    requires
        !endpoint_well_formed(r.from) || !endpoint_well_formed(r.to),
    ensures
        !relation_valid(r),
        relation_fault(r) is Some,
{
    lemma_fault_iff_invalid(r);
}

} // verus!
