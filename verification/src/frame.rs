use vstd::prelude::*;
use crate::emulator::Emulator;
use crate::semantics;

verus! {

/// The keypad key (0..F) that the host key `code` stands for, if any.
pub fn keypad_index(code: i32) -> (key: Option<usize>)
    ensures
        match key {
            Some(k) => k < 16 && semantics::keypad_codes()[k as int] == code,
            None => !semantics::keypad_codes().contains(code),
        },
{
    let key: Option<usize> = match code {
        120 => Some(0),  // x
        49 => Some(1),  // 1
        50 => Some(2),  // 2
        51 => Some(3),  // 3
        113 => Some(4),  // q
        119 => Some(5),  // w
        101 => Some(6),  // e
        97 => Some(7),  // a
        115 => Some(8),  // s
        100 => Some(9),  // d
        122 => Some(10),  // z
        99 => Some(11),  // c
        52 => Some(12),  // 4
        114 => Some(13),  // r
        102 => Some(14),  // f
        118 => Some(15),  // v
        _ => None,
    };
    proof {
        if key is None {
            assert forall|k: int| 0 <= k < 16 implies semantics::keypad_codes()[k] != code by {}
        }
    }
    key
}

impl Emulator {
    /// One frame of the host loop: the keypad shows `pressed`, the machine
    /// runs `speed` cycles, then the timers tick once. Returns `false`, and
    /// stops there, at the first cycle that cannot run.
    pub fn run_frame(&mut self, pressed: [bool; 16], speed: u32) -> (ran: bool)
        ensures
            exists|rnds: Seq<u8>|
                #![trigger semantics::run_cycles(semantics::with_keys(old(self)@, pressed@), rnds)]
                {
                    &&& rnds.len() <= speed
                    &&& ran ==> (rnds.len() == speed && (semantics::run_cycles(
                        semantics::with_keys(old(self)@, pressed@),
                        rnds,
                    ) matches Some(t) && final(self)@ == semantics::timers_ticked(t)))
                    &&& !ran ==> (rnds.len() < speed && semantics::run_cycles(
                        semantics::with_keys(old(self)@, pressed@),
                        rnds,
                    ) == Some(final(self)@) && semantics::cycle(final(self)@, 0) is None)
                },
    {
        self.key_inputs = pressed;
        let ghost start = self@;
        let ghost mut rnds: Seq<u8> = Seq::empty();
        assert(semantics::run_cycles(start, rnds) == Some(self@));
        let mut done: u32 = 0;
        while done < speed
            invariant
                done <= speed,
                rnds.len() == done,
                semantics::run_cycles(start, rnds) == Some(self@),
                start == semantics::with_keys(old(self)@, pressed@),
            decreases speed - done,
        {
            if !self.can_tick() {
                return false;
            }
            let ghost before = self@;
            self.tick();
            proof {
                let r = choose|r: u8| Some(self@) == #[trigger] semantics::cycle(before, r);
                let next = rnds.push(r);
                assert(next.drop_last() =~= rnds);
                rnds = next;
            }
            done += 1;
        }
        self.timer_tick();
        true
    }
}

} // verus!
