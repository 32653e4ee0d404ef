//! The virtual interface used for egress: the name handed to the kernel, and
//! the teardown that must run exactly once.

use crate::link::LinkCommand;
use vstd::prelude::*;

verus! {

/// Relies on `libc::IFNAMSIZ`, the size of the kernel's interface name field,
/// trailing NUL included: 16 on Linux.
#[verifier::external_body]
fn ifnamsiz() -> (r: usize)
    ensures
        r == 16,
{
    libc::IFNAMSIZ
}

/// Why a virtual interface name is refused.
#[derive(Clone, Copy, Debug, PartialEq, Eq, Structural)]
pub enum TapNameError {
    /// The name leaves no room for the trailing NUL.
    TooLong,
}

/// The name field of an interface request: the name's bytes, padded with
/// zeros to 16 bytes, of which at least the last is zero.
pub open spec fn name_field(name: Seq<u8>) -> Seq<u8> {
    Seq::new(16, |i: int| if i < name.len() { name[i] } else { 0u8 })
}

/// Encodes `name` for the kernel's interface request; it fails when the
/// name does not leave room for the trailing NUL.
pub fn request_name(name: &[u8]) -> (r: Result<Vec<u8>, TapNameError>)
    ensures
        name@.len() >= 16 <==> r == Err::<Vec<u8>, TapNameError>(TapNameError::TooLong),
        r matches Ok(v) ==> v@ == name_field(name@),
{
    let size = ifnamsiz();
    if name.len() >= size {
        return Err(TapNameError::TooLong);
    }
    let mut out: Vec<u8> = Vec::new();
    let mut i: usize = 0;
    while i < size
        invariant
            size == 16,
            name@.len() < 16,
            i <= size,
            out@.len() == i,
            forall|j: int| 0 <= j < i ==> out@[j] == name_field(name@)[j],
        decreases size - i,
    {
        if i < name.len() {
            out.push(name[i]);
        } else {
            out.push(0u8);
        }
        i += 1;
    }
    assert(out@ == name_field(name@));
    Ok(out)
}

/// The state after a teardown and the commands it issues: a live interface
/// is set down, then deleted; one already torn down is left alone.
pub open spec fn teardown_spec(live: bool) -> (bool, Seq<LinkCommand>) {
    if live {
        (false, seq![LinkCommand::SetDown, LinkCommand::Delete])
    } else {
        (false, Seq::empty())
    }
}

/// A virtual interface created at startup, and whether its teardown has
/// yet to run.
pub struct TapInterface {
    name: String,
    live: bool,
}

impl TapInterface {
    pub closed spec fn spec_name(&self) -> Seq<char> {
        self.name@
    }

    pub closed spec fn is_live(&self) -> bool {
        self.live
    }

    /// Records an interface that the kernel created under `name`.
    pub fn created(name: String) -> (r: TapInterface)
        ensures
            r.spec_name() == name@,
            r.is_live(),
    {
        TapInterface { name, live: true }
    }

    pub fn name(&self) -> (r: &String)
        ensures
            r@ == self.spec_name(),
    {
        &self.name
    }

    pub fn is_live_now(&self) -> (r: bool)
        ensures
            r == self.is_live(),
    {
        self.live
    }

    /// The commands that tear the interface down, in order; after the first
    /// call there are none.
    pub fn teardown(&mut self) -> (r: Vec<LinkCommand>)
        ensures
            final(self).is_live() == teardown_spec(old(self).is_live()).0,
            r@ == teardown_spec(old(self).is_live()).1,
            final(self).spec_name() == old(self).spec_name(),
    {
        let mut cmds: Vec<LinkCommand> = Vec::new();
        if self.live {
            cmds.push(LinkCommand::SetDown);
            cmds.push(LinkCommand::Delete);
            self.live = false;
        }
        proof {
            if old(self).live {
                assert(cmds@ == seq![LinkCommand::SetDown, LinkCommand::Delete]);
            }
        }
        cmds
    }
}

/// Teardown is idempotent: a second teardown issues no command and leaves
/// the state as the first left it.
pub proof fn lemma_teardown_idempotent(live: bool)
    ensures
        teardown_spec(teardown_spec(live).0).1.len() == 0,
        teardown_spec(teardown_spec(live).0).0 == teardown_spec(live).0,
{
}

} // verus!
