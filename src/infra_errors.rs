use vstd::prelude::*;

verus! {

/// A JSON value, carried through unread.
#[verifier::external_type_specification]
#[verifier::external_body]
pub struct ExValue(serde_json::Value);

/// One stored finding, with the size of the whole filtered set.
pub struct InfraErrorQueryable {
    pub count: i64,
    pub obj_id: String,
    pub obj_type: String,
    pub information: serde_json::Value,
}

/// One stored finding: the object it is about and its JSON content.
pub struct InfraError {
    pub obj_id: String,
    pub obj_type: String,
    pub information: serde_json::Value,
}

/// A page past the end of a non-empty set of findings was asked for.
#[derive(Debug, Clone, Copy, PartialEq, Eq, Structural)]
pub struct PaginationError;

impl InfraError {
    pub fn from_queryable(error: InfraErrorQueryable) -> (r: InfraError)
        ensures
            r.obj_id == error.obj_id,
            r.obj_type == error.obj_type,
            r.information == error.information,
    {
        InfraError { obj_id: error.obj_id, obj_type: error.obj_type, information: error.information }
    }
}

/// Turns the rows the store gave for page `page` into that page and the size of
/// the whole set. An empty page is an error past page 1, and page 1 of an empty
/// set is empty.
pub fn get_paginated_infra_errors(rows: Vec<InfraErrorQueryable>, page: i64) -> (r: Result<(Vec<InfraError>, i64), PaginationError>)
    ensures
        r is Err <==> rows@.len() == 0 && page > 1,
        r matches Ok((errors, count)) ==> {
            &&& count == (if rows@.len() == 0 { 0 } else { rows@[0].count })
            &&& errors@.len() == rows@.len()
            &&& forall|i: int|
                0 <= i < rows@.len() ==> (#[trigger] errors@[i]).obj_id == rows@[i].obj_id && errors@[i].obj_type
                    == rows@[i].obj_type && errors@[i].information == rows@[i].information
        },
{
    if rows.len() == 0 && page > 1 {
        return Err(PaginationError);
    }
    let count = if rows.len() == 0 {
        0
    } else {
        rows[0].count
    };
    let ghost all = rows@;
    let mut rest = rows;
    let mut errors: Vec<InfraError> = Vec::new();
    while rest.len() > 0
        invariant
            errors@.len() + rest@.len() == all.len(),
            rest@ == all.subrange(errors@.len() as int, all.len() as int),
            forall|i: int|
                0 <= i < errors@.len() ==> (#[trigger] errors@[i]).obj_id == all[i].obj_id && errors@[i].obj_type
                    == all[i].obj_type && errors@[i].information == all[i].information,
        decreases rest@.len(),
    {
        let row = rest.remove(0);
        errors.push(InfraError::from_queryable(row));
        assert(rest@ =~= all.subrange(errors@.len() as int, all.len() as int));
    }
    Ok((errors, count))
}

} // verus!
