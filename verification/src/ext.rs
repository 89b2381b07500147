//! The memory-mapped peripheral hook mechanism. Hooks observe every memory
//! access the emulator makes: on a read the first hook to answer supplies a
//! substitute value, on a write every hook is notified after the raw cell is
//! written. Hooks are handed the raw memory image itself, never the
//! dispatching emulator, so a hook inspecting memory can never re-enter the
//! hook chain.

use vstd::prelude::*;
use crate::nibble::u4;

verus! {

/// A registrable observer of memory traffic, implementing a memory-mapped
/// peripheral without the core knowing its identity.
///
/// `transparent` names the hook states that will not intercept any read;
/// while a hook stays transparent the emulator behaves exactly as if no
/// peripheral were attached, which is what the emulator's contracts build on.
pub trait Extension: Sized {
    /// True of a hook state that answers no read and stays that way.
    spec fn transparent(&self) -> bool;

    /// Asked on every memory read; `Some` short-circuits the chain and
    /// replaces the raw cell's value.
    fn on_mem_read(&mut self, addr: u8, mem: &[u4; 256]) -> (r: Option<u4>)
        ensures
            old(self).transparent() ==> final(self).transparent() && r is None,
            r matches Some(v) ==> v.val() < 16,
    ;

    /// Told of every memory write, after the raw cell was written.
    fn on_mem_write(&mut self, addr: u8, value: u4, mem: &[u4; 256])
        ensures
            old(self).transparent() ==> final(self).transparent(),
    ;
}

/// The empty peripheral set: observes everything, intercepts nothing.
pub struct NoExt;

impl Extension for NoExt {
    open spec fn transparent(&self) -> bool {
        true
    }

    fn on_mem_read(&mut self, addr: u8, mem: &[u4; 256]) -> (r: Option<u4>) {
        None
    }

    fn on_mem_write(&mut self, addr: u8, value: u4, mem: &[u4; 256]) {
    }
}

/// An ordered collection of hooks dispatched as one hook: reads ask each in
/// registration order and the first answer wins; writes notify every hook.
pub struct ExtManager<E: Extension> {
    extensions: Vec<E>,
}

impl<E: Extension> ExtManager<E> {
    /// The hooks, in registration order.
    pub closed spec fn spec_extensions(self) -> Seq<E> {
        self.extensions@
    }

    pub fn new(extensions: Vec<E>) -> (r: Self)
        ensures
            r.spec_extensions() == extensions@,
            r.transparent() == (forall|i: int|
                0 <= i < extensions@.len() ==> (#[trigger] extensions@[i]).transparent()),
    {
        let r = Self { extensions };
        proof {
            assert forall|i: int| 0 <= i < r.extensions@.len() implies r.extensions@[i]
                == extensions@[i] by {}
        }
        r
    }
}

impl<E: Extension> Extension for ExtManager<E> {
    /// The collection is transparent exactly when every hook in it is.
    closed spec fn transparent(&self) -> bool {
        forall|i: int|
            0 <= i < self.extensions@.len() ==> (#[trigger] self.extensions@[i]).transparent()
    }

    fn on_mem_read(&mut self, addr: u8, mem: &[u4; 256]) -> (r: Option<u4>) {
        let n = self.extensions.len();
        let mut i: usize = 0;
        while i < n
            invariant
                n == self.extensions@.len(),
                0 <= i <= n,
                old(self).transparent() ==> forall|j: int|
                    0 <= j < n ==> (#[trigger] self.extensions@[j]).transparent(),
            decreases n - i,
        {
            let ext = &mut self.extensions[i];
            let out = ext.on_mem_read(addr, mem);
            if out.is_some() {
                return out;
            }
            i += 1;
        }
        None
    }

    fn on_mem_write(&mut self, addr: u8, value: u4, mem: &[u4; 256]) {
        let n = self.extensions.len();
        let mut i: usize = 0;
        while i < n
            invariant
                n == self.extensions@.len(),
                0 <= i <= n,
                old(self).transparent() ==> forall|j: int|
                    0 <= j < n ==> (#[trigger] self.extensions@[j]).transparent(),
            decreases n - i,
        {
            let ext = &mut self.extensions[i];
            ext.on_mem_write(addr, value, mem);
            i += 1;
        }
    }
}

} // verus!
