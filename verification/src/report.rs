//! Rendering of validation reports: the one line each issue surfaces and
//! the aggregate message an ingest refusal carries.

use vstd::prelude::*;

use crate::domain::KgError;
use crate::text::append_str;
use crate::validate::{issue_views, IssueSpec, ValidationIssue, ValidationReport};

verus! {

/// The human-readable line one issue renders to.
pub open spec fn issue_line(i: IssueSpec) -> Seq<char> {
    match i {
        IssueSpec::EmptyId { kind } => kind + " id is required"@,
        IssueSpec::MalformedId { kind, id } => kind + " id '"@ + id + "' must be a valid UUID"@,
        IssueSpec::UniverseNameRequired { universe_id } => "universe "@ + universe_id
            + " name is required"@,
        IssueSpec::UnknownUniverse { entity_id, universe_id } => "entity "@ + entity_id
            + " references unknown universe "@ + universe_id,
        IssueSpec::EntityUnknownType { entity_id, type_id } => "entity "@ + entity_id
            + " uses unknown schema type "@ + type_id,
        IssueSpec::EntityNotEntitySubtype { entity_id, type_id } => "entity "@ + entity_id
            + " type "@ + type_id + " must descend from node.entity"@,
        IssueSpec::BlockUnknownType { block_id, type_id } => "block "@ + block_id
            + " uses unknown schema type "@ + type_id,
        IssueSpec::BlockNotBlockSubtype { block_id, type_id } => "block "@ + block_id + " type "@
            + type_id + " must descend from node.block"@,
        IssueSpec::MalformedEdgeType { from_id, to_id, edge_type } => "edge "@ + from_id + "->"@
            + to_id + " edge_type '"@ + edge_type
            + "' must be uppercase letters, numbers, or underscore"@,
        IssueSpec::UnknownEdgeType { from_id, to_id, edge_type } => "edge "@ + from_id + "->"@
            + to_id + " references unknown edge type "@ + edge_type,
        IssueSpec::PropertyNotAllowed { subject, key, owner_type_id } => subject + " property '"@
            + key + "' is not allowed for "@ + owner_type_id,
        IssueSpec::MissingRequiredProperty { subject, key } => subject
            + " is missing required property '"@ + key + "'"@,
        IssueSpec::EndpointRuleViolation { edge_type, edge_type_id, from_type, to_type } => "edge "@
            + edge_type + " ("@ + edge_type_id + ") violates schema endpoint rules for "@
            + from_type + " -> "@ + to_type,
        IssueSpec::UniverseNoRelationship { universe_id } => "universe "@ + universe_id
            + " must have at least one relationship"@,
        IssueSpec::EntityNoRelationship { entity_id } => "entity "@ + entity_id
            + " must have at least one relationship"@,
        IssueSpec::EntityNoIsPartOf { entity_id } => "entity "@ + entity_id
            + " must have IS_PART_OF edge to a universe"@,
        IssueSpec::BlockNoRelationship { block_id } => "block "@ + block_id
            + " must have at least one relationship"@,
        IssueSpec::BlockParentCount { block_id } => "block "@ + block_id
            + " must have exactly one incoming DESCRIBED_BY or SUMMARIZES edge"@,
    }
}

/// The aggregate message of a report: the fixed heading, then every
/// issue's line behind a dashed separator, in report order.
pub open spec fn report_message(issues: Seq<IssueSpec>) -> Seq<char>
    decreases issues.len(),
{
    if issues.len() == 0 {
        "graph delta validation failed:"@
    } else {
        report_message(issues.drop_last()) + "\n- "@ + issue_line(issues.last())
    }
}

impl ValidationIssue {
    /// The human-readable line of one issue.
    pub fn message(&self) -> (r: String)
        ensures
            r@ == issue_line(self@),
    {
        match self {
            ValidationIssue::EmptyId { kind } => {
                let mut m = kind.clone();
                append_str(&mut m, " id is required");
                m
            },
            ValidationIssue::MalformedId { kind, id } => {
                let mut m = kind.clone();
                append_str(&mut m, " id '");
                append_str(&mut m, id.as_str());
                append_str(&mut m, "' must be a valid UUID");
                m
            },
            ValidationIssue::UniverseNameRequired { universe_id } => {
                let mut m = "universe ".to_owned();
                append_str(&mut m, universe_id.as_str());
                append_str(&mut m, " name is required");
                m
            },
            ValidationIssue::UnknownUniverse { entity_id, universe_id } => {
                let mut m = "entity ".to_owned();
                append_str(&mut m, entity_id.as_str());
                append_str(&mut m, " references unknown universe ");
                append_str(&mut m, universe_id.as_str());
                m
            },
            ValidationIssue::EntityUnknownType { entity_id, type_id } => {
                let mut m = "entity ".to_owned();
                append_str(&mut m, entity_id.as_str());
                append_str(&mut m, " uses unknown schema type ");
                append_str(&mut m, type_id.as_str());
                m
            },
            ValidationIssue::EntityNotEntitySubtype { entity_id, type_id } => {
                let mut m = "entity ".to_owned();
                append_str(&mut m, entity_id.as_str());
                append_str(&mut m, " type ");
                append_str(&mut m, type_id.as_str());
                append_str(&mut m, " must descend from node.entity");
                m
            },
            ValidationIssue::BlockUnknownType { block_id, type_id } => {
                let mut m = "block ".to_owned();
                append_str(&mut m, block_id.as_str());
                append_str(&mut m, " uses unknown schema type ");
                append_str(&mut m, type_id.as_str());
                m
            },
            ValidationIssue::BlockNotBlockSubtype { block_id, type_id } => {
                let mut m = "block ".to_owned();
                append_str(&mut m, block_id.as_str());
                append_str(&mut m, " type ");
                append_str(&mut m, type_id.as_str());
                append_str(&mut m, " must descend from node.block");
                m
            },
            ValidationIssue::MalformedEdgeType { from_id, to_id, edge_type } => {
                let mut m = "edge ".to_owned();
                append_str(&mut m, from_id.as_str());
                append_str(&mut m, "->");
                append_str(&mut m, to_id.as_str());
                append_str(&mut m, " edge_type '");
                append_str(&mut m, edge_type.as_str());
                append_str(&mut m, "' must be uppercase letters, numbers, or underscore");
                m
            },
            ValidationIssue::UnknownEdgeType { from_id, to_id, edge_type } => {
                let mut m = "edge ".to_owned();
                append_str(&mut m, from_id.as_str());
                append_str(&mut m, "->");
                append_str(&mut m, to_id.as_str());
                append_str(&mut m, " references unknown edge type ");
                append_str(&mut m, edge_type.as_str());
                m
            },
            ValidationIssue::PropertyNotAllowed { subject, key, owner_type_id } => {
                let mut m = subject.clone();
                append_str(&mut m, " property '");
                append_str(&mut m, key.as_str());
                append_str(&mut m, "' is not allowed for ");
                append_str(&mut m, owner_type_id.as_str());
                m
            },
            ValidationIssue::MissingRequiredProperty { subject, key } => {
                let mut m = subject.clone();
                append_str(&mut m, " is missing required property '");
                append_str(&mut m, key.as_str());
                append_str(&mut m, "'");
                m
            },
            ValidationIssue::EndpointRuleViolation { edge_type, edge_type_id, from_type, to_type } => {
                let mut m = "edge ".to_owned();
                append_str(&mut m, edge_type.as_str());
                append_str(&mut m, " (");
                append_str(&mut m, edge_type_id.as_str());
                append_str(&mut m, ") violates schema endpoint rules for ");
                append_str(&mut m, from_type.as_str());
                append_str(&mut m, " -> ");
                append_str(&mut m, to_type.as_str());
                m
            },
            ValidationIssue::UniverseNoRelationship { universe_id } => {
                let mut m = "universe ".to_owned();
                append_str(&mut m, universe_id.as_str());
                append_str(&mut m, " must have at least one relationship");
                m
            },
            ValidationIssue::EntityNoRelationship { entity_id } => {
                let mut m = "entity ".to_owned();
                append_str(&mut m, entity_id.as_str());
                append_str(&mut m, " must have at least one relationship");
                m
            },
            ValidationIssue::EntityNoIsPartOf { entity_id } => {
                let mut m = "entity ".to_owned();
                append_str(&mut m, entity_id.as_str());
                append_str(&mut m, " must have IS_PART_OF edge to a universe");
                m
            },
            ValidationIssue::BlockNoRelationship { block_id } => {
                let mut m = "block ".to_owned();
                append_str(&mut m, block_id.as_str());
                append_str(&mut m, " must have at least one relationship");
                m
            },
            ValidationIssue::BlockParentCount { block_id } => {
                let mut m = "block ".to_owned();
                append_str(&mut m, block_id.as_str());
                append_str(
                    &mut m,
                    " must have exactly one incoming DESCRIBED_BY or SUMMARIZES edge",
                );
                m
            },
        }
    }
}

impl ValidationReport {
    /// The aggregate message: the fixed heading, then every issue on its
    /// own line, in report order.
    pub fn message(&self) -> (r: String)
        ensures
            r@ == report_message(issue_views(self.issues@)),
    {
        let ghost v = issue_views(self.issues@);
        let mut m = "graph delta validation failed:".to_owned();
        let mut i: usize = 0;
        proof {
            assert(v.take(0int) =~= Seq::<IssueSpec>::empty());
        }
        while i < self.issues.len()
            invariant
                v == issue_views(self.issues@),
                i <= self.issues@.len(),
                m@ == report_message(v.take(i as int)),
            decreases self.issues@.len() - i,
        {
            append_str(&mut m, "\n- ");
            let line = self.issues[i].message();
            append_str(&mut m, line.as_str());
            proof {
                assert(v.take(i + 1).drop_last() =~= v.take(i as int));
                assert(v.take(i + 1).last() == self.issues@[i as int]@);
            }
            i += 1;
        }
        proof {
            assert(v.take(v.len() as int) =~= v);
        }
        m
    }

    /// The report as the error an ingest call surfaces: an invalid-input
    /// error carrying the aggregate message.
    pub fn to_error(&self) -> (r: KgError)
        ensures
            r is InvalidInput,
            r.spec_message() == report_message(issue_views(self.issues@)),
    {
        KgError::InvalidInput(self.message())
    }
}

} // verus!
