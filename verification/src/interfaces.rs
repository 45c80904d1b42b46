//! The interfaces section: a count-prefixed list of constant-pool indices
//! of the directly implemented interfaces.

use vstd::prelude::*;

verus! {

use crate::cursor::{s_u16s, ByteCursor};
use crate::error::DecodeError;

/// Decode `interfaces_count` consecutive interface pool indices.
pub fn generate_interfaces(interfaces_count: u16, c: &mut ByteCursor) -> (r: Result<
    Vec<u16>,
    DecodeError,
>)
    requires
        old(c).wf(),
    ensures
        final(c).wf(),
        final(c).bytes() == old(c).bytes(),
        old(c).pos <= final(c).pos,
        (match r {
            Ok(v) => s_u16s(old(c).bytes(), old(c).pos as int, interfaces_count as nat, Seq::empty())
                == Ok::<_, DecodeError>((v@, final(c).pos as int)),
            Err(e) => s_u16s(old(c).bytes(), old(c).pos as int, interfaces_count as nat, Seq::empty())
                == Err::<(Seq<u16>, int), _>(e),
        }),
{
    c.read_u16_list(interfaces_count)
}

} // verus!
