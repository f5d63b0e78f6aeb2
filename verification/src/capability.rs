//! What the user can be asked for: the scalar kinds of the registry, arrays
//! of them, and the resolution of a table position to one of these.

use vstd::prelude::*;
use crate::descriptor::{Descriptor, InputTypedesc, TypePos};
use crate::error::BindError;

verus! {

/// The scalar kinds that can be entered.
#[derive(Debug, Clone, Copy, PartialEq, Eq, Structural)]
pub enum ScalarKind {
    Str,
    Uuid,
    Int16,
    Int32,
    Int64,
    Float32,
    Float64,
    Decimal,
    Bool,
    Json,
    BigInt,
}

/// How to ask for a value of one leaf type: a scalar of the registry, or
/// an array whose elements are asked for in the way given.
#[derive(Debug, PartialEq, Eq)]
pub enum Capability {
    Scalar(ScalarKind),
    Array(Box<Capability>),
}

impl Clone for Capability {
    fn clone(&self) -> (copy: Self)
        ensures
            copy == *self,
        decreases *self,
    {
        match self {
            Capability::Scalar(kind) => Capability::Scalar(*kind),
            Capability::Array(element) => {
                let inner: &Capability = &**element;
                Capability::Array(Box::new(inner.clone()))
            },
        }
    }
}

/// The registry: the scalar kind that a canonical identifier stands for.
pub open spec fn registered(id: u128) -> Option<ScalarKind> {
    if id == 0x101 {
        Some(ScalarKind::Str)
    } else if id == 0x100 {
        Some(ScalarKind::Uuid)
    } else if id == 0x103 {
        Some(ScalarKind::Int16)
    } else if id == 0x104 {
        Some(ScalarKind::Int32)
    } else if id == 0x105 {
        Some(ScalarKind::Int64)
    } else if id == 0x106 {
        Some(ScalarKind::Float32)
    } else if id == 0x107 {
        Some(ScalarKind::Float64)
    } else if id == 0x108 {
        Some(ScalarKind::Decimal)
    } else if id == 0x109 {
        Some(ScalarKind::Bool)
    } else if id == 0x10f {
        Some(ScalarKind::Json)
    } else if id == 0x110 {
        Some(ScalarKind::BigInt)
    } else {
        None
    }
}

/// The node that decides how the leaf `item` is entered: the base of a
/// scalar, one hop away, and `item` itself otherwise.
pub open spec fn leaf_target(all: InputTypedesc, item: Descriptor) -> Result<Descriptor, BindError> {
    match item {
        Descriptor::Scalar { base_type_pos } => match all.node(base_type_pos) {
            Some(base) => Ok(base),
            None => Err(BindError::UnexpectedTypePos { position: base_type_pos.0 }),
        },
        _ => Ok(item),
    }
}

/// The capability of the node at `pos`, with arrays followed through at
/// most `depth` levels of nesting.
pub open spec fn resolve(all: InputTypedesc, pos: TypePos, depth: nat) -> Result<
    Capability,
    BindError,
>
    decreases depth,
{
    match all.node(pos) {
        None => Err(BindError::UnexpectedTypePos { position: pos.0 }),
        Some(item) => match leaf_target(all, item) {
            Err(error) => Err(error),
            Ok(Descriptor::BaseScalar { id }) => match registered(id) {
                Some(kind) => Ok(Capability::Scalar(kind)),
                None => Err(BindError::UnimplementedType { id }),
            },
            Ok(Descriptor::Array { type_pos, dimensions }) => if depth == 0 {
                Err(BindError::NestingTooDeep { pos })
            } else {
                match resolve(all, type_pos, (depth - 1) as nat) {
                    Ok(element) => Ok(Capability::Array(Box::new(element))),
                    Err(error) => Err(error),
                }
            },
            Ok(_) => Err(BindError::UnimplementedDescriptor { pos }),
        },
    }
}

impl InputTypedesc {
    /// The capability of the node at `pos`. A table of `n` nodes that nests
    /// arrays more than `n` deep passes through one of them twice, so the
    /// walk is cut off there.
    pub open spec fn capability(self, pos: TypePos) -> Result<Capability, BindError> {
        resolve(self, pos, self.array@.len())
    }

    /// Every scalar and every array refers to an earlier position, as in a
    /// table that was written front to back.
    pub open spec fn layered(self) -> bool {
        forall|i: int|
            0 <= i < self.array@.len() ==> match #[trigger] self.array@[i] {
                Descriptor::Scalar { base_type_pos } => base_type_pos.0 < i,
                Descriptor::Array { type_pos, dimensions } => type_pos.0 < i,
                _ => true,
            }
    }
}

/// Looks an identifier up in the registry.
pub fn scalar_kind(id: u128) -> (kind: Option<ScalarKind>)
    ensures
        kind == registered(id),
{
    if id == std_str() {
        Some(ScalarKind::Str)
    } else if id == std_uuid() {
        Some(ScalarKind::Uuid)
    } else if id == std_int16() {
        Some(ScalarKind::Int16)
    } else if id == std_int32() {
        Some(ScalarKind::Int32)
    } else if id == std_int64() {
        Some(ScalarKind::Int64)
    } else if id == std_float32() {
        Some(ScalarKind::Float32)
    } else if id == std_float64() {
        Some(ScalarKind::Float64)
    } else if id == std_decimal() {
        Some(ScalarKind::Decimal)
    } else if id == std_bool() {
        Some(ScalarKind::Bool)
    } else if id == std_json() {
        Some(ScalarKind::Json)
    } else if id == std_bigint() {
        Some(ScalarKind::BigInt)
    } else {
        None
    }
}

/// `made` under `depth` levels of array, where it is a capability; the
/// error that it is otherwise.
pub open spec fn nested(made: Result<Capability, BindError>, depth: nat) -> Result<
    Capability,
    BindError,
>
    decreases depth,
{
    if depth == 0 {
        made
    } else {
        match nested(made, (depth - 1) as nat) {
            Ok(element) => Ok(Capability::Array(Box::new(element))),
            Err(error) => Err(error),
        }
    }
}

/// Resolves the node at `pos` to the capability that asks for its values.
/// Arrays are walked down in a loop, so that a table that leads round in
/// a circle costs as many steps as it has nodes and no more.
pub fn make_variable_input(pos: TypePos, all: &InputTypedesc) -> (made: Result<
    Capability,
    BindError,
>)
    ensures
        made == all.capability(pos),
{
    let limit = all.array.len();
    let mut at = pos;
    let mut depth: usize = 0;
    loop
        invariant
            limit == all.array@.len(),
            depth <= limit,
            all.capability(pos) == nested(resolve(*all, at, (limit - depth) as nat), depth as nat),
        decreases limit - depth,
    {
        proof {
            reveal_with_fuel(resolve, 1);
            lemma_nested_error(resolve(*all, at, (limit - depth) as nat), depth as nat);
        }
        let item = match all.get(at) {
            Some(item) => item,
            None => {
                return Err(BindError::UnexpectedTypePos { position: at.0 });
            },
        };
        let citem = match item {
            Descriptor::Scalar { base_type_pos } => match all.get(*base_type_pos) {
                Some(base) => base,
                None => {
                    return Err(BindError::UnexpectedTypePos { position: base_type_pos.0 });
                },
            },
            _ => item,
        };
        match citem {
            Descriptor::BaseScalar { id } => {
                return match scalar_kind(*id) {
                    Some(kind) => Ok(array_over(kind, depth)),
                    None => Err(BindError::UnimplementedType { id: *id }),
                };
            },
            Descriptor::Array { type_pos, dimensions: _ } => {
                if depth == limit {
                    return Err(BindError::NestingTooDeep { pos: at });
                }
                proof {
                    lemma_nested_inside(
                        resolve(*all, *type_pos, (limit - depth - 1) as nat),
                        depth as nat,
                    );
                }
                depth += 1;
                at = *type_pos;
            },
            _ => {
                return Err(BindError::UnimplementedDescriptor { pos: at });
            },
        }
    }
}

/// The scalar under `depth` levels of array.
fn array_over(kind: ScalarKind, depth: usize) -> (made: Capability)
    ensures
        Ok::<Capability, BindError>(made) == nested(Ok(Capability::Scalar(kind)), depth as nat),
{
    let mut made = Capability::Scalar(kind);
    let mut level: usize = 0;
    while level < depth
        invariant
            level <= depth,
            Ok::<Capability, BindError>(made) == nested(
                Ok(Capability::Scalar(kind)),
                level as nat,
            ),
        decreases depth - level,
    {
        made = Capability::Array(Box::new(made));
        level += 1;
    }
    made
}

/// An error stays what it is under any nesting.
pub proof fn lemma_nested_error(made: Result<Capability, BindError>, depth: nat)
    ensures
        made.is_err() ==> nested(made, depth) == made,
    decreases depth,
{
    if depth > 0 {
        lemma_nested_error(made, (depth - 1) as nat);
    }
}

/// One more level of array inside is one more level outside.
pub proof fn lemma_nested_inside(made: Result<Capability, BindError>, depth: nat)
    ensures
        nested(
            match made {
                Ok(element) => Ok(Capability::Array(Box::new(element))),
                Err(error) => Err(error),
            },
            depth,
        ) == nested(made, depth + 1),
    decreases depth,
{
    reveal_with_fuel(nested, 2);
    if depth > 0 {
        lemma_nested_inside(made, (depth - 1) as nat);
    }
}

/// A base scalar whose identifier the registry does not hold is refused,
/// and the refusal names that identifier; so is a scalar whose base it is.
pub proof fn lemma_unregistered_scalar_is_refused(all: InputTypedesc, pos: TypePos, id: u128)
    requires
        registered(id).is_none(),
        all.node(pos) == Some(Descriptor::BaseScalar { id }) || (exists|base: TypePos|
            all.node(pos) == Some(Descriptor::Scalar { base_type_pos: base }) && all.node(base)
                == Some(Descriptor::BaseScalar { id })),
    ensures
        all.capability(pos) == Err::<Capability, BindError>(BindError::UnimplementedType { id }),
{
    reveal_with_fuel(resolve, 1);
}

/// A base scalar of the registry resolves to its kind, whatever else the
/// table holds.
pub proof fn lemma_registered_scalar_resolves(all: InputTypedesc, pos: TypePos, id: u128)
    requires
        registered(id).is_some(),
        all.node(pos) == Some(Descriptor::BaseScalar { id }),
    ensures
        all.capability(pos) == Ok::<Capability, BindError>(
            Capability::Scalar(registered(id).unwrap()),
        ),
{
    reveal_with_fuel(resolve, 1);
}

/// An array resolves to an array of what its element resolves to, one level
/// of nesting further down.
pub proof fn lemma_array_wraps_its_element(
    all: InputTypedesc,
    pos: TypePos,
    type_pos: TypePos,
    dimensions: Vec<Option<u32>>,
    depth: nat,
)
    requires
        all.node(pos) == Some(Descriptor::Array { type_pos, dimensions }),
        depth > 0,
    ensures
        resolve(all, pos, depth) == match resolve(all, type_pos, (depth - 1) as nat) {
            Ok(element) => Ok::<Capability, BindError>(Capability::Array(Box::new(element))),
            Err(error) => Err(error),
        },
{
    reveal_with_fuel(resolve, 1);
}

/// The limit on nesting changes no answer: what resolves, or fails for
/// another reason, within `depth` levels does the same within any more.
pub proof fn lemma_resolve_stable(all: InputTypedesc, pos: TypePos, depth: nat, more: nat)
    requires
        depth <= more,
        !(resolve(all, pos, depth) matches Err(BindError::NestingTooDeep { .. })),
    ensures
        resolve(all, pos, more) == resolve(all, pos, depth),
    decreases depth,
{
    reveal_with_fuel(resolve, 1);
    match all.node(pos) {
        Some(item) => match leaf_target(all, item) {
            Ok(Descriptor::Array { type_pos, dimensions }) => {
                lemma_resolve_stable(all, type_pos, (depth - 1) as nat, (more - 1) as nat);
            },
            _ => {},
        },
        None => {},
    }
}

/// In a layered table the node at `pos` nests arrays at most `pos` deep.
pub proof fn lemma_layered_depth(all: InputTypedesc, pos: TypePos, depth: nat)
    requires
        all.layered(),
        pos.0 <= depth,
    ensures
        !(resolve(all, pos, depth) matches Err(BindError::NestingTooDeep { .. })),
    decreases depth,
{
    reveal_with_fuel(resolve, 1);
    match all.node(pos) {
        Some(item) => {
            assert(item == all.array@[pos.0 as int]);
            match item {
                Descriptor::Scalar { base_type_pos } => {
                    match all.node(base_type_pos) {
                        Some(Descriptor::Array { type_pos, dimensions }) => {
                            assert(all.array@[base_type_pos.0 as int] is Array);
                            lemma_layered_depth(all, type_pos, (depth - 1) as nat);
                        },
                        _ => {},
                    }
                },
                Descriptor::Array { type_pos, dimensions } => {
                    lemma_layered_depth(all, type_pos, (depth - 1) as nat);
                },
                _ => {},
            }
        },
        None => {},
    }
}

/// The limit on nesting never stops the resolution of a layered table.
pub proof fn lemma_layered_never_too_deep(all: InputTypedesc, pos: TypePos)
    requires
        all.layered(),
    ensures
        !(all.capability(pos) matches Err(BindError::NestingTooDeep { .. })),
{
    reveal_with_fuel(resolve, 1);
    if all.node(pos).is_some() {
        lemma_layered_depth(all, pos, all.array@.len());
    }
}

/// Reads `edgedb_protocol::codec::STD_STR` as a number. Trusted: it is 0x101.
#[verifier::external_body]
fn std_str() -> (id: u128)
    ensures
        id == 0x101,
{
    edgedb_protocol::codec::STD_STR.as_u128()
}

/// Reads `edgedb_protocol::codec::STD_UUID` as a number. Trusted: it is 0x100.
#[verifier::external_body]
fn std_uuid() -> (id: u128)
    ensures
        id == 0x100,
{
    edgedb_protocol::codec::STD_UUID.as_u128()
}

/// Reads `edgedb_protocol::codec::STD_INT16` as a number. Trusted: it is 0x103.
#[verifier::external_body]
fn std_int16() -> (id: u128)
    ensures
        id == 0x103,
{
    edgedb_protocol::codec::STD_INT16.as_u128()
}

/// Reads `edgedb_protocol::codec::STD_INT32` as a number. Trusted: it is 0x104.
#[verifier::external_body]
fn std_int32() -> (id: u128)
    ensures
        id == 0x104,
{
    edgedb_protocol::codec::STD_INT32.as_u128()
}

/// Reads `edgedb_protocol::codec::STD_INT64` as a number. Trusted: it is 0x105.
#[verifier::external_body]
fn std_int64() -> (id: u128)
    ensures
        id == 0x105,
{
    edgedb_protocol::codec::STD_INT64.as_u128()
}

/// Reads `edgedb_protocol::codec::STD_FLOAT32` as a number. Trusted: it is 0x106.
#[verifier::external_body]
fn std_float32() -> (id: u128)
    ensures
        id == 0x106,
{
    edgedb_protocol::codec::STD_FLOAT32.as_u128()
}

/// Reads `edgedb_protocol::codec::STD_FLOAT64` as a number. Trusted: it is 0x107.
#[verifier::external_body]
fn std_float64() -> (id: u128)
    ensures
        id == 0x107,
{
    edgedb_protocol::codec::STD_FLOAT64.as_u128()
}

/// Reads `edgedb_protocol::codec::STD_DECIMAL` as a number. Trusted: it is 0x108.
#[verifier::external_body]
fn std_decimal() -> (id: u128)
    ensures
        id == 0x108,
{
    edgedb_protocol::codec::STD_DECIMAL.as_u128()
}

/// Reads `edgedb_protocol::codec::STD_BOOL` as a number. Trusted: it is 0x109.
#[verifier::external_body]
fn std_bool() -> (id: u128)
    ensures
        id == 0x109,
{
    edgedb_protocol::codec::STD_BOOL.as_u128()
}

/// Reads `edgedb_protocol::codec::STD_JSON` as a number. Trusted: it is 0x10f.
#[verifier::external_body]
fn std_json() -> (id: u128)
    ensures
        id == 0x10f,
{
    edgedb_protocol::codec::STD_JSON.as_u128()
}

/// Reads `edgedb_protocol::codec::STD_BIGINT` as a number. Trusted: it is 0x110.
#[verifier::external_body]
fn std_bigint() -> (id: u128)
    ensures
        id == 0x110,
{
    edgedb_protocol::codec::STD_BIGINT.as_u128()
}

} // verus!
