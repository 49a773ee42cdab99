use vstd::prelude::*;

use crate::objects::{ObjectRef, ObjectType};

verus! {

/// The entry or the exit point of a route's path.
#[derive(Debug, Clone, Copy, PartialEq, Eq, Structural)]
pub enum PathEndpointField {
    EntryPoint,
    ExitPoint,
}

/// What a finding reports, beyond its object and field.
#[derive(Debug, PartialEq, Eq)]
pub enum InfraErrorType {
    InvalidReference { reference: ObjectRef },
    OutOfRange { position: i64, expected_range: [i64; 2] },
    EmptyPath,
    /// `expected_*` is the location the path gives, `actual_*` the declared object's placement.
    PathDoesNotMatchEndpoints {
        expected_track: String,
        expected_position: i64,
        actual_track: String,
        actual_position: i64,
        endpoint_field: PathEndpointField,
    },
    ObjectOutOfPath { position: i64, track: String },
    PathIsNotContinuous,
}

/// One finding of the topology validation: the owning object, the offending field
/// and what is wrong with it.
#[derive(Debug, PartialEq, Eq)]
pub struct InfraError {
    pub obj_id: String,
    pub field: String,
    pub sub_type: InfraErrorType,
}

/// Mathematical content of an `InfraErrorType`.
pub enum FindingKind {
    InvalidReference { obj_type: ObjectType, obj_id: Seq<char> },
    OutOfRange { position: i64, min: i64, max: i64 },
    EmptyPath,
    PathDoesNotMatchEndpoints {
        expected_track: Seq<char>,
        expected_position: i64,
        actual_track: Seq<char>,
        actual_position: i64,
        endpoint_field: PathEndpointField,
    },
    ObjectOutOfPath { position: i64, track: Seq<char> },
    PathIsNotContinuous,
}

/// Mathematical content of an `InfraError`.
pub struct Finding {
    pub obj_id: Seq<char>,
    pub field: Seq<char>,
    pub kind: FindingKind,
}

impl View for InfraErrorType {
    type V = FindingKind;

    open spec fn view(&self) -> FindingKind {
        match self {
            InfraErrorType::InvalidReference { reference } => FindingKind::InvalidReference {
                obj_type: reference.obj_type,
                obj_id: reference.obj_id@,
            },
            InfraErrorType::OutOfRange { position, expected_range } => FindingKind::OutOfRange {
                position: *position,
                min: expected_range[0],
                max: expected_range[1],
            },
            InfraErrorType::EmptyPath => FindingKind::EmptyPath,
            InfraErrorType::PathDoesNotMatchEndpoints {
                expected_track,
                expected_position,
                actual_track,
                actual_position,
                endpoint_field,
            } => FindingKind::PathDoesNotMatchEndpoints {
                expected_track: expected_track@,
                expected_position: *expected_position,
                actual_track: actual_track@,
                actual_position: *actual_position,
                endpoint_field: *endpoint_field,
            },
            InfraErrorType::ObjectOutOfPath { position, track } => FindingKind::ObjectOutOfPath {
                position: *position,
                track: track@,
            },
            InfraErrorType::PathIsNotContinuous => FindingKind::PathIsNotContinuous,
        }
    }
}

impl View for InfraError {
    type V = Finding;

    open spec fn view(&self) -> Finding {
        Finding { obj_id: self.obj_id@, field: self.field@, kind: self.sub_type@ }
    }
}

/// The character of a decimal digit.
pub open spec fn digit_char(d: nat) -> char {
    if d == 0 {
        '0'
    } else if d == 1 {
        '1'
    } else if d == 2 {
        '2'
    } else if d == 3 {
        '3'
    } else if d == 4 {
        '4'
    } else if d == 5 {
        '5'
    } else if d == 6 {
        '6'
    } else if d == 7 {
        '7'
    } else if d == 8 {
        '8'
    } else {
        '9'
    }
}

/// Decimal notation of `n`, without leading zeros.
pub open spec fn decimal(n: nat) -> Seq<char>
    decreases n,
{
    if n < 10 {
        seq![digit_char(n)]
    } else {
        decimal(n / 10) + seq![digit_char(n % 10)]
    }
}

fn digit_str(d: usize) -> (r: &'static str)
    requires
        d < 10,
    ensures
        r@ == seq![digit_char(d as nat)],
{
    proof {
        reveal_strlit("0");
        reveal_strlit("1");
        reveal_strlit("2");
        reveal_strlit("3");
        reveal_strlit("4");
        reveal_strlit("5");
        reveal_strlit("6");
        reveal_strlit("7");
        reveal_strlit("8");
        reveal_strlit("9");
    }
    match d {
        0 => "0",
        1 => "1",
        2 => "2",
        3 => "3",
        4 => "4",
        5 => "5",
        6 => "6",
        7 => "7",
        8 => "8",
        _ => "9",
    }
}

/// Appends the decimal notation of `n` to `s`.
pub fn push_decimal(s: &mut String, n: usize)
    ensures
        final(s)@ == old(s)@ + decimal(n as nat),
    decreases n,
{
    if n >= 10 {
        push_decimal(s, n / 10);
    }
    s.append(digit_str(n % 10));
    assert(final(s)@ =~= old(s)@ + decimal(n as nat));
}

/// `prefix` followed by the decimal notation of `index` and by `suffix`
/// (`path.3.begin`, `release_detector.0`).
pub fn indexed_field(prefix: &str, index: usize, suffix: &str) -> (r: String)
    ensures
        r@ == prefix@ + decimal(index as nat) + suffix@,
{
    let mut s = String::from_str(prefix);
    push_decimal(&mut s, index);
    s.append(suffix);
    s
}

impl PathEndpointField {
    /// The quoted serialized name of the field, used as a finding's field.
    pub open spec fn spec_name(self) -> Seq<char> {
        match self {
            PathEndpointField::EntryPoint => seq!['"', 'e', 'n', 't', 'r', 'y', '_', 'p', 'o', 'i', 'n', 't', '"'],
            PathEndpointField::ExitPoint => seq!['"', 'e', 'x', 'i', 't', '_', 'p', 'o', 'i', 'n', 't', '"'],
        }
    }

    /// The quoted serialized name of the field (`"entry_point"`, `"exit_point"`).
    pub fn to_string(&self) -> (r: String)
        ensures
            r@ == self.spec_name(),
    {
        match self {
            PathEndpointField::EntryPoint => {
                proof {
                    reveal_strlit("\"entry_point\"");
                }
                String::from_str("\"entry_point\"")
            },
            PathEndpointField::ExitPoint => {
                proof {
                    reveal_strlit("\"exit_point\"");
                }
                String::from_str("\"exit_point\"")
            },
        }
    }
}

impl InfraError {
    pub fn new_invalid_reference(obj_id: &str, field: &str, reference: ObjectRef) -> (r: InfraError)
        ensures
            r@ == (Finding {
                obj_id: obj_id@,
                field: field@,
                kind: FindingKind::InvalidReference { obj_type: reference.obj_type, obj_id: reference.obj_id@ },
            }),
    {
        InfraError {
            obj_id: String::from_str(obj_id),
            field: String::from_str(field),
            sub_type: InfraErrorType::InvalidReference { reference },
        }
    }

    pub fn new_out_of_range(obj_id: &str, field: &str, position: i64, expected_range: [i64; 2]) -> (r: InfraError)
        ensures
            r@ == (Finding {
                obj_id: obj_id@,
                field: field@,
                kind: FindingKind::OutOfRange { position, min: expected_range[0], max: expected_range[1] },
            }),
    {
        InfraError {
            obj_id: String::from_str(obj_id),
            field: String::from_str(field),
            sub_type: InfraErrorType::OutOfRange { position, expected_range },
        }
    }

    pub fn new_empty_path(obj_id: &str, field: &str) -> (r: InfraError)
        ensures
            r@ == (Finding { obj_id: obj_id@, field: field@, kind: FindingKind::EmptyPath }),
    {
        InfraError {
            obj_id: String::from_str(obj_id),
            field: String::from_str(field),
            sub_type: InfraErrorType::EmptyPath,
        }
    }

    pub fn new_path_does_not_match_endpoints(
        obj_id: &str,
        field: &str,
        expected_track: String,
        expected_position: i64,
        actual_track: String,
        actual_position: i64,
        endpoint_field: PathEndpointField,
    ) -> (r: InfraError)
        ensures
            r@ == (Finding {
                obj_id: obj_id@,
                field: field@,
                kind: FindingKind::PathDoesNotMatchEndpoints {
                    expected_track: expected_track@,
                    expected_position,
                    actual_track: actual_track@,
                    actual_position,
                    endpoint_field,
                },
            }),
    {
        InfraError {
            obj_id: String::from_str(obj_id),
            field: String::from_str(field),
            sub_type: InfraErrorType::PathDoesNotMatchEndpoints {
                expected_track,
                expected_position,
                actual_track,
                actual_position,
                endpoint_field,
            },
        }
    }

    pub fn new_object_out_of_path(obj_id: &str, field: &str, position: i64, track: String) -> (r: InfraError)
        ensures
            r@ == (Finding {
                obj_id: obj_id@,
                field: field@,
                kind: FindingKind::ObjectOutOfPath { position, track: track@ },
            }),
    {
        InfraError {
            obj_id: String::from_str(obj_id),
            field: String::from_str(field),
            sub_type: InfraErrorType::ObjectOutOfPath { position, track },
        }
    }

    pub fn new_path_is_not_continuous(obj_id: &str, field: &str) -> (r: InfraError)
        ensures
            r@ == (Finding { obj_id: obj_id@, field: field@, kind: FindingKind::PathIsNotContinuous }),
    {
        InfraError {
            obj_id: String::from_str(obj_id),
            field: String::from_str(field),
            sub_type: InfraErrorType::PathIsNotContinuous,
        }
    }
}

} // verus!
