//! A digital I/O port: its pins follow the output register on the bits set as outputs.
use crate::sram::{RegisterAddr, SRAM};
use vstd::prelude::*;

verus! {

pub struct IOPort {
    pub last_portx: u8,
    pub last_ddrx: u8,
    pub last_pinx: u8,
    pub portx: RegisterAddr,
    pub ddrx: RegisterAddr,
    pub pinx: RegisterAddr,
}

/// The pin register after propagation: PORT's bits where DDR marks an output, PIN's elsewhere.
pub open spec fn driven_pins(port: u8, ddr: u8, pin: u8) -> u8 {
    (pin & !ddr) | (port & ddr)
}

/// The port and the data space after one propagation step: if PORT, DDR or PIN differ from
/// the last values seen, PIN takes the driven value and the values are remembered; otherwise
/// nothing changes.
pub open spec fn port_step(p: IOPort, s: Seq<u8>) -> (IOPort, Seq<u8>) {
    let port = s[p.portx as int];
    let ddr = s[p.ddrx as int];
    let pin = s[p.pinx as int];
    if port != p.last_portx || ddr != p.last_ddrx || pin != p.last_pinx {
        let np = driven_pins(port, ddr, pin);
        (IOPort { last_portx: port, last_ddrx: ddr, last_pinx: np, ..p }, s.update(p.pinx as int, np))
    } else {
        (p, s)
    }
}

impl IOPort {
    /// The three registers are distinct and lie inside a data space of `len` bytes.
    pub open spec fn wf(&self, len: nat) -> bool {
        &&& self.portx < len && self.ddrx < len && self.pinx < len
        &&& self.portx != self.pinx && self.ddrx != self.pinx && self.portx != self.ddrx
    }

    /// A port on the given registers that has seen nothing yet.
    pub open spec fn new_spec(portx: RegisterAddr, ddrx: RegisterAddr, pinx: RegisterAddr) -> IOPort {
        IOPort { last_portx: 0, last_ddrx: 0, last_pinx: 0, portx, ddrx, pinx }
    }

    pub fn new(portx: RegisterAddr, ddrx: RegisterAddr, pinx: RegisterAddr) -> (r: IOPort)
        ensures
            r == Self::new_spec(portx, ddrx, pinx),
    {
        IOPort { last_portx: 0, last_ddrx: 0, last_pinx: 0, portx, ddrx, pinx }
    }

    pub fn portx(&self, sram: &SRAM) -> (r: u8)
        requires
            self.wf(sram@.len()),
        ensures
            r == sram@[self.portx as int],
    {
        sram.get(self.portx)
    }

    pub fn ddrx(&self, sram: &SRAM) -> (r: u8)
        requires
            self.wf(sram@.len()),
        ensures
            r == sram@[self.ddrx as int],
    {
        sram.get(self.ddrx)
    }

    pub fn pinx(&self, sram: &SRAM) -> (r: u8)
        requires
            self.wf(sram@.len()),
        ensures
            r == sram@[self.pinx as int],
    {
        sram.get(self.pinx)
    }

    /// Propagates PORT to PIN through DDR when any of the three changed since the last call.
    pub fn clk_io(&mut self, sram: &mut SRAM)
        requires
            old(sram).wf(),
            old(self).wf(old(sram)@.len()),
        ensures
            final(sram).wf(),
            final(sram)@.len() == old(sram)@.len(),
            (*final(self), final(sram)@) == port_step(*old(self), old(sram)@),
    {
        let port = self.portx(sram);
        let ddr = self.ddrx(sram);
        let pin = self.pinx(sram);
        if self.last_portx != port || self.last_ddrx != ddr || self.last_pinx != pin {
            let np = (pin & !ddr) | (port & ddr);
            sram.set(self.pinx, np);
            self.last_portx = port;
            self.last_ddrx = ddr;
            self.last_pinx = np;
        }
    }
}

/// Propagation is idempotent: a second step with no register written in between changes
/// neither the pins nor the port.
pub proof fn lemma_clk_io_idempotent(p: IOPort, s: Seq<u8>)
    requires
        p.wf(s.len()),
    ensures
        port_step(port_step(p, s).0, port_step(p, s).1) == port_step(p, s),
{
}

/// After propagation each pin set as an output shows PORT's bit, and each input keeps its own.
pub proof fn lemma_driven_pins(port: u8, ddr: u8, pin: u8, n: u8)
    requires
        n < 8,
    ensures
        crate::bit::bit_of(driven_pins(port, ddr, pin), n) == if crate::bit::bit_of(ddr, n) {
            crate::bit::bit_of(port, n)
        } else {
            crate::bit::bit_of(pin, n)
        },
{
    assert((((pin & !ddr) | (port & ddr)) >> n) & 1u8 == 1u8 <==> if (ddr >> n) & 1u8 == 1u8 {
        (port >> n) & 1u8 == 1u8
    } else {
        (pin >> n) & 1u8 == 1u8
    }) by (bit_vector)
        requires
            n < 8u8,
    ;
}

} // verus!
