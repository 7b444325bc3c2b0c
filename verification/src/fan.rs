//! Fan speed and fan feedback as the monitor sees them.

use vstd::prelude::*;
use vstd::string::*;
use crate::text::{decimal, push_decimal};

verus! {

/// Fan duty cycle in percent.
#[derive(Clone, Copy, Debug, PartialEq, Eq, Structural)]
pub struct Speed {
    pub pwm: usize,
}

/// The highest duty cycle.
pub const MAX_PWM: usize = 100;

impl Speed {
    /// The duty cycle is at most [`MAX_PWM`].
    pub open spec fn wf(&self) -> bool {
        self.pwm <= MAX_PWM
    }

    /// The speed at which fans do not turn.
    pub open spec fn spec_stopped() -> Speed {
        Speed { pwm: 0 }
    }

    /// The speed at which fans turn as fast as they can.
    pub open spec fn spec_full_speed() -> Speed {
        Speed { pwm: 100 }
    }

    /// Fans do not turn.
    #[verifier::when_used_as_spec(spec_stopped)]
    pub fn stopped() -> (speed: Self)
        ensures
            speed == Self::spec_stopped(),
    {
        Speed { pwm: 0 }
    }

    /// Fans turn as fast as they can.
    #[verifier::when_used_as_spec(spec_full_speed)]
    pub fn full_speed() -> (speed: Self)
        ensures
            speed == Self::spec_full_speed(),
    {
        Speed { pwm: 100 }
    }

    /// A duty cycle of `pwm` percent.
    pub fn new(pwm: usize) -> (speed: Self)
        requires
            pwm <= MAX_PWM,
        ensures
            speed.pwm == pwm,
            speed.wf(),
    {
        Speed { pwm }
    }

    /// A duty cycle of `pwm` percent, if that is at most [`MAX_PWM`].
    pub fn try_new(pwm: usize) -> (speed: Option<Self>)
        ensures
            speed is Some <==> pwm <= MAX_PWM,
            speed is Some ==> speed->0.pwm == pwm && speed->0.wf(),
    {
        if pwm <= MAX_PWM {
            Some(Speed { pwm })
        } else {
            None
        }
    }

    /// The duty cycle in percent.
    pub fn to_pwm(&self) -> (pwm: usize)
        ensures
            pwm == self.pwm,
    {
        self.pwm
    }

    /// How a speed is written: the duty cycle followed by a percent sign.
    pub open spec fn text(&self) -> Seq<char> {
        decimal(self.pwm as nat) + "%"@
    }

    /// The speed as it is written in messages.
    pub fn to_string(&self) -> (text: String)
        ensures
            text@ == self.text(),
    {
        let mut text = String::new();
        push_decimal(&mut text, self.pwm as u64);
        text.append("%");
        assert(text@ =~= self.text());
        text
    }
}

/// Revolutions per minute of each fan, as read from the fan controller.
#[derive(Debug)]
pub struct Feedback {
    pub rpm: Vec<usize>,
}

/// Number of fans among `rpm` that turn.
pub open spec fn count_running(rpm: Seq<usize>) -> nat
    decreases rpm.len(),
{
    if rpm.len() == 0 {
        0
    } else {
        count_running(rpm.drop_last()) + if rpm.last() > 0 {
            1nat
        } else {
            0nat
        }
    }
}

impl Feedback {
    /// Number of fans that turn.
    pub fn num_fans_running(&self) -> (n: usize)
        ensures
            n == count_running(self.rpm@),
    {
        let mut n: usize = 0;
        let mut i: usize = 0;
        while i < self.rpm.len()
            invariant
                i <= self.rpm.len(),
                n == count_running(self.rpm@.subrange(0, i as int)),
                n <= i,
            decreases self.rpm.len() - i,
        {
            assert(self.rpm@.subrange(0, i + 1).drop_last() =~= self.rpm@.subrange(0, i as int));
            if self.rpm[i] > 0 {
                n += 1;
            }
            i += 1;
        }
        assert(self.rpm@.subrange(0, i as int) =~= self.rpm@);
        n
    }
}

impl Clone for Feedback {
    fn clone(&self) -> (copy: Self)
        ensures
            copy.rpm@ == self.rpm@,
    {
        let mut rpm: Vec<usize> = Vec::new();
        let mut i: usize = 0;
        while i < self.rpm.len()
            invariant
                i <= self.rpm.len(),
                rpm@ == self.rpm@.subrange(0, i as int),
            decreases self.rpm.len() - i,
        {
            rpm.push(self.rpm[i]);
            assert(rpm@ =~= self.rpm@.subrange(0, i + 1));
            i += 1;
        }
        assert(rpm@ =~= self.rpm@);
        Feedback { rpm }
    }
}

} // verus!
