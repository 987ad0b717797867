//! HPET timer bookkeeping.
//!
//! The kernel reads and writes the HPET's memory-mapped register block
//! with volatile accesses; here the block is a register snapshot, and the
//! configuration sequence the kernel performs on it — globally disable,
//! strip every timer's interrupt configuration, zero the main counter,
//! globally enable — is carried out on that snapshot, bit for bit. The
//! volatile handoff to and from the device is the kernel's edge.

use vstd::prelude::*;

verus! {

use crate::mutex::Mutex;
use vstd::arithmetic::div_mod::lemma_div_non_zero;

pub const TIMER_CONFIG_LEVEL_TRIGGER: u64 = 1u64 << 1;

pub const TIMER_CONFIG_ENABLE: u64 = 1u64 << 2;

pub const TIMER_CONFIG_PERIODIC: u64 = 1u64 << 3;

/// Femtoseconds per second: the HPET reports its counter period in
/// femtoseconds.
pub const FEMTOSECONDS_PER_SECOND: u64 = 1_000_000_000_000_000;

/// One timer's configuration-and-capabilities register.
#[derive(Clone, Copy)]
pub struct TimerRegister {
    pub configuration_and_capabilities: u64,
}

/// The bits the initialization strips from a timer's configuration:
/// interrupt enable, level triggering, periodic mode, and the routing
/// field.
pub open spec fn timer_config_stripped(config: u64) -> u64 {
    config & !(TIMER_CONFIG_ENABLE | TIMER_CONFIG_LEVEL_TRIGGER | TIMER_CONFIG_PERIODIC | (
    0xfu64 << 9))
}

impl TimerRegister {
    /// Stores the timer's configuration word (a volatile store in the
    /// kernel).
    pub fn write_config(&mut self, config: u64)
        ensures
            final(self).configuration_and_capabilities == config,
    {
        self.configuration_and_capabilities = config;
    }
}

/// Snapshot of the HPET's memory-mapped register block: the read-only
/// capabilities word, the global configuration word, the main counter,
/// and the block's 32 timer slots.
pub struct HpetRegisters {
    pub capabilites_and_id: u64,
    pub configuration: u64,
    pub main_counter_value: u64,
    pub timers: Vec<TimerRegister>,
}

impl HpetRegisters {
    /// The register block always carries 32 timer slots.
    pub open spec fn wf(&self) -> bool {
        self.timers@.len() == 32
    }

    /// Counter period in femtoseconds, from the capabilities word.
    pub open spec fn counter_clk_period(&self) -> u64 {
        self.capabilites_and_id >> 32
    }

    /// Number of timers the block implements, from the capabilities word.
    pub open spec fn spec_num_of_timers(&self) -> int {
        ((self.capabilites_and_id >> 8) & 0x1f) + 1
    }
}

/// The timer, configured and running: its register snapshot plus the
/// derived timer count and counter frequency.
pub struct Hpet {
    registers: HpetRegisters,
    num_of_timers: usize,
    frequency: u64,
}

impl Hpet {
    /// The configured register block.
    pub closed spec fn regs(&self) -> HpetRegisters {
        self.registers
    }

    pub closed spec fn spec_num_of_timers(&self) -> usize {
        self.num_of_timers
    }

    /// Counter ticks per second.
    pub closed spec fn spec_freq(&self) -> u64 {
        self.frequency
    }

    /// The derived fields agree with the capabilities word, which reports
    /// a nonzero counter period.
    pub open spec fn wf(&self) -> bool {
        &&& self.regs().wf()
        &&& self.regs().counter_clk_period() != 0
        &&& self.spec_freq() == FEMTOSECONDS_PER_SECOND / self.regs().counter_clk_period()
        &&& self.spec_num_of_timers() == self.regs().spec_num_of_timers()
    }

    /// The frequency is always positive: the counter period, a 32-bit
    /// field, cannot exceed a second.
    pub proof fn lemma_freq_positive(&self)
        requires
            self.wf(),
        ensures
            self.spec_freq() >= 1,
    {
        let caps = self.regs().capabilites_and_id;
        let period = self.regs().counter_clk_period();
        assert(caps >> 32 < 0x1_0000_0000u64) by (bit_vector);
        assert(period < 0x1_0000_0000u64);
        lemma_div_non_zero(FEMTOSECONDS_PER_SECOND as int, period as int);
    }

    /// Clears the two low bits of the global configuration register,
    /// stopping the main counter (a volatile read-modify-write in the
    /// kernel).
    fn globally_disable(&mut self)
        ensures
            final(self).registers.configuration == old(self).registers.configuration & !0b11u64,
            final(self).registers.capabilites_and_id == old(self).registers.capabilites_and_id,
            final(self).registers.main_counter_value == old(self).registers.main_counter_value,
            final(self).registers.timers == old(self).registers.timers,
            final(self).num_of_timers == old(self).num_of_timers,
            final(self).frequency == old(self).frequency,
    {
        let config = self.registers.configuration & !0b11u64;
        self.registers.configuration = config;
    }

    /// Sets the enable bit of the global configuration register, starting
    /// the main counter.
    fn globally_enable(&mut self)
        ensures
            final(self).registers.configuration == old(self).registers.configuration | 0b01u64,
            final(self).registers.capabilites_and_id == old(self).registers.capabilites_and_id,
            final(self).registers.main_counter_value == old(self).registers.main_counter_value,
            final(self).registers.timers == old(self).registers.timers,
            final(self).num_of_timers == old(self).num_of_timers,
            final(self).frequency == old(self).frequency,
    {
        let config = self.registers.configuration | 0b01u64;
        self.registers.configuration = config;
    }

    /// The configured register snapshot, for the kernel to store back to
    /// the device's register block.
    pub fn register_block(&self) -> (r: &HpetRegisters)
        ensures
            *r == self.regs(),
    {
        &self.registers
    }

    /// The main counter's current value (a volatile read in the kernel).
    pub fn main_counter(&self) -> (r: u64)
        ensures
            r == self.regs().main_counter_value,
    {
        self.registers.main_counter_value
    }

    /// Counter ticks per second.
    pub fn freq(&self) -> (r: u64)
        ensures
            r == self.spec_freq(),
    {
        self.frequency
    }

    /// Takes over a freshly mapped register block and configures it: the
    /// counter is stopped, every implemented timer's interrupt
    /// configuration is stripped, the counter is zeroed, and the block is
    /// enabled again. A capabilities word reporting a zero counter period
    /// is a protocol violation (the frequency would be undefined) and is
    /// excluded.
    pub fn new(registers: HpetRegisters) -> (r: Hpet)
        requires
            registers.wf(),
            registers.counter_clk_period() != 0,
        ensures
            r.wf(),
            r.regs().capabilites_and_id == registers.capabilites_and_id,
            r.regs().configuration == (registers.configuration & !0b11u64) | 0b01u64,
            r.regs().main_counter_value == 0,
            r.regs().timers@.len() == 32,
            forall|i: int|
                0 <= i < r.spec_num_of_timers()
                    ==> (#[trigger] r.regs().timers@[i]).configuration_and_capabilities
                    == timer_config_stripped(registers.timers@[i].configuration_and_capabilities),
            forall|i: int|
                r.spec_num_of_timers() <= i < 32 ==> #[trigger] r.regs().timers@[i]
                    == registers.timers@[i],
    {
        let ghost r0 = registers;
        let caps = registers.capabilites_and_id;
        proof {
            assert((caps >> 8) & 0x1f < 32) by (bit_vector);
        }
        let counter_clk_period = registers.capabilites_and_id >> 32;
        let num_of_timers = (((registers.capabilites_and_id >> 8) & 0x1f) as usize) + 1;
        let frequency = FEMTOSECONDS_PER_SECOND / counter_clk_period;
        let mut hpet = Self { registers, num_of_timers, frequency };
        hpet.globally_disable();
        let mut i: usize = 0;
        while i < num_of_timers
            invariant
                num_of_timers <= 32,
                0 <= i <= num_of_timers,
                hpet.registers.timers@.len() == 32,
                hpet.registers.capabilites_and_id == r0.capabilites_and_id,
                hpet.registers.configuration == r0.configuration & !0b11u64,
                hpet.registers.main_counter_value == r0.main_counter_value,
                hpet.num_of_timers == num_of_timers,
                hpet.frequency == frequency,
                forall|j: int|
                    0 <= j < i ==> (#[trigger] hpet.registers.timers@[j]).configuration_and_capabilities
                        == timer_config_stripped(r0.timers@[j].configuration_and_capabilities),
                forall|j: int| i <= j < 32 ==> #[trigger] hpet.registers.timers@[j] == r0.timers@[j],
            decreases num_of_timers - i,
        {
            let timer = vstd::std_specs::vec::vec_index_mut(&mut hpet.registers.timers, i);
            let config = timer.configuration_and_capabilities & !(TIMER_CONFIG_ENABLE
                | TIMER_CONFIG_LEVEL_TRIGGER | TIMER_CONFIG_PERIODIC | (0xfu64 << 9));
            timer.write_config(config);
            i = i + 1;
        }
        hpet.registers.main_counter_value = 0;
        hpet.globally_enable();
        hpet
    }
}

/// Installs the configured timer into the process-wide slot. The kernel
/// asserts the slot is still empty — installing twice is a protocol
/// violation — so an occupied slot is excluded here, as is a held lock
/// (re-entry would spin out).
pub fn set_global_hpet(hpet_slot: &mut Mutex<Option<Hpet>>, hpet: Hpet)
    requires
        !old(hpet_slot).is_locked(),
        old(hpet_slot).value() is None,
    ensures
        !final(hpet_slot).is_locked(),
        final(hpet_slot).value() == Some(hpet),
{
    // this layer has no caller location to record; the kernel's lock wrapper
    // fills it in
    hpet_slot.lock(0);
    let empty = match hpet_slot.borrow_data() {
        Option::None => true,
        Option::Some(_) => false,
    };
    proof {
        assert(empty);
    }
    hpet_slot.set_data(Some(hpet));
    hpet_slot.unlock();
}

/// Nanoseconds since the counter was zeroed, computed from the main
/// counter and the counter frequency; zero while no timer is installed.
/// The counter reading must be small enough for the conversion to
/// nanoseconds not to overflow.
pub fn global_timestamp(hpet_slot: &mut Mutex<Option<Hpet>>) -> (r: u64)
    requires
        !old(hpet_slot).is_locked(),
        old(hpet_slot).value() matches Some(h) ==> h.wf() && h.regs().main_counter_value
            * 1_000_000_000 <= u64::MAX,
    ensures
        !final(hpet_slot).is_locked(),
        final(hpet_slot).value() == old(hpet_slot).value(),
        old(hpet_slot).value() matches Some(h) ==> r == (h.regs().main_counter_value
            * 1_000_000_000) / (h.spec_freq() as int),
        old(hpet_slot).value() is None ==> r == 0,
{
    hpet_slot.lock(0);
    let r = match hpet_slot.borrow_data() {
        Option::Some(hpet) => {
            proof {
                hpet.lemma_freq_positive();
            }
            hpet.main_counter() * 1_000_000_000 / hpet.freq()
        },
        Option::None => 0,
    };
    hpet_slot.unlock();
    r
}

} // verus!
