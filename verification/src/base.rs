//! Radio base: tracks the transceiver mode and polls the radio for
//! transmit and receive completion.

use vstd::prelude::*;

use crate::error::CoreError;
use crate::{Radio, RawPacket};

verus! {

/// Mode the radio base believes the transceiver to be in.
#[derive(Clone, Copy, Debug, PartialEq, Eq, Structural)]
pub enum BaseState {
    /// Nothing running.
    Idle,
    /// Receiver armed, nothing arriving yet.
    Listening,
    /// A packet is arriving.
    Receiving,
    /// A transmission is running.
    Transmitting,
    /// The radio sleeps.
    Sleeping,
}

/// Radio base wrapping a transceiver driver.
pub struct Base<R> {
    /// The transceiver driver.
    pub radio: R,
    /// Believed transceiver mode.
    pub state: BaseState,
    /// Every byte string handed to the transceiver for transmission, in
    /// order; the layers above state their outbound guarantees over it.
    pub tx_log: Ghost<Seq<Seq<u8>>>,
}

impl<R: Radio> Base<R> {
    /// Wrap a radio; the transceiver is not touched.
    pub fn new(radio: R) -> (r: Result<Base<R>, CoreError<R::Error>>)
        ensures
            r matches Ok(b) && b.state == BaseState::Idle && b.tx_log@ == Seq::<Seq<u8>>::empty(),
    {
        Ok(Base { radio, state: BaseState::Idle, tx_log: Ghost(Seq::empty()) })
    }

    /// Fetch the believed transceiver mode.
    pub fn state(&self) -> (r: BaseState)
        ensures
            r == self.state,
    {
        self.state
    }

    /// Whether an operation is running that must not be interrupted.
    pub open spec fn spec_is_busy(&self) -> bool {
        self.state == BaseState::Receiving || self.state == BaseState::Transmitting
    }

    /// Check whether an operation is running.
    pub fn is_busy(&self) -> (r: bool)
        ensures
            r == self.spec_is_busy(),
    {
        match self.state {
            BaseState::Idle | BaseState::Sleeping | BaseState::Listening => false,
            _ => true,
        }
    }

    /// Put the radio to sleep; refused while an operation runs.
    pub fn sleep(&mut self) -> (r: Result<(), CoreError<R::Error>>)
        ensures
            old(self).spec_is_busy() ==> r == Err::<(), _>(CoreError::<R::Error>::Busy) && *final(self) == *old(self),
            final(self).tx_log == old(self).tx_log,
            !old(self).spec_is_busy() ==> match r {
                Ok(()) => final(self).state == BaseState::Sleeping,
                Err(e) => e is Radio && final(self).state == old(self).state,
            },
    {
        if self.is_busy() {
            return Err(CoreError::Busy);
        }
        match self.radio.set_sleep() {
            Ok(()) => {},
            Err(e) => {
                return Err(CoreError::Radio(e));
            },
        }
        self.state = BaseState::Sleeping;
        Ok(())
    }

    /// Start transmitting `data` immediately; refused while an operation
    /// runs.
    pub fn transmit(&mut self, now: u64, data: &Vec<u8>) -> (r: Result<(), CoreError<R::Error>>)
        ensures
            old(self).spec_is_busy() ==> r == Err::<(), _>(CoreError::<R::Error>::Busy) && *final(self) == *old(self),
            !old(self).spec_is_busy() ==> match r {
                Ok(()) => final(self).state == BaseState::Transmitting && final(self).tx_log@
                    == old(self).tx_log@.push(data@),
                Err(e) => e is Radio && final(self).state == old(self).state && final(self).tx_log
                    == old(self).tx_log,
            },
    {
        let _ = now;
        if self.is_busy() {
            return Err(CoreError::Busy);
        }
        match self.radio.start_transmit(data) {
            Ok(()) => {},
            Err(e) => {
                return Err(CoreError::Radio(e));
            },
        }
        self.state = BaseState::Transmitting;
        proof {
            self.tx_log@ = self.tx_log@.push(data@);
        }
        Ok(())
    }

    /// Arm the receiver; refused while an operation runs.
    pub fn receive(&mut self, now: u64) -> (r: Result<(), CoreError<R::Error>>)
        ensures
            old(self).spec_is_busy() ==> r == Err::<(), _>(CoreError::<R::Error>::Busy) && *final(self) == *old(self),
            final(self).tx_log == old(self).tx_log,
            !old(self).spec_is_busy() ==> match r {
                Ok(()) => final(self).state == BaseState::Listening,
                Err(e) => e is Radio && final(self).state == old(self).state,
            },
    {
        let _ = now;
        if self.is_busy() {
            return Err(CoreError::Busy);
        }
        match self.radio.start_receive() {
            Ok(()) => {},
            Err(e) => {
                return Err(CoreError::Radio(e));
            },
        }
        self.state = BaseState::Listening;
        Ok(())
    }

    /// Sample the channel RSSI; only a listening radio can be asked.
    pub fn rssi(&mut self, now: u64) -> (r: Result<i16, CoreError<R::Error>>)
        ensures
            final(self).state == old(self).state,
            final(self).tx_log == old(self).tx_log,
            old(self).state != BaseState::Listening ==> r == Err::<i16, _>(
                CoreError::<R::Error>::Busy,
            ),
            old(self).state == BaseState::Listening ==> (r is Ok || (r matches Err(e)
                && e is Radio)),
    {
        let _ = now;
        if !matches!(self.state, BaseState::Listening) {
            return Err(CoreError::Busy);
        }
        match self.radio.poll_rssi() {
            Ok(rssi) => Ok(rssi),
            Err(e) => Err(CoreError::Radio(e)),
        }
    }

    /// Poll the transceiver: in receive modes, completed receptions come
    /// back as a packet and the receiver re-arms; in transmit mode, a
    /// completed transmission re-arms the receiver.
    pub fn tick(&mut self, now: u64) -> (r: Result<Option<RawPacket>, CoreError<R::Error>>)
        ensures
            final(self).tx_log == old(self).tx_log,
            old(self).state == BaseState::Idle || old(self).state == BaseState::Sleeping ==> r
                == Ok::<Option<RawPacket>, CoreError<R::Error>>(Option::None) && *final(self)
                == *old(self),
            match r {
                Ok(Some(p)) => p.wf() && final(self).state == BaseState::Listening && (old(
                    self,
                ).state == BaseState::Listening || old(self).state == BaseState::Receiving),
                Ok(None) => final(self).state == old(self).state || (old(self).state
                    == BaseState::Transmitting && final(self).state == BaseState::Listening),
                Err(e) => e is Radio,
            },
    {
        match self.state {
            BaseState::Idle => Ok(Option::None),
            BaseState::Listening | BaseState::Receiving => self.check_receive(now),
            BaseState::Transmitting => {
                match self.check_transmit(now) {
                    Ok(()) => Ok(Option::None),
                    Err(e) => Err(e),
                }
            },
            BaseState::Sleeping => Ok(Option::None),
        }
    }

    /// Poll for a completed reception and re-arm the receiver.
    fn check_receive(&mut self, now: u64) -> (r: Result<Option<RawPacket>, CoreError<R::Error>>)
        ensures
            final(self).tx_log == old(self).tx_log,
            match r {
                Ok(Some(p)) => p.wf() && final(self).state == BaseState::Listening,
                Ok(None) => final(self).state == old(self).state,
                Err(e) => e is Radio,
            },
    {
        let _ = now;
        let done = match self.radio.check_receive(true) {
            Ok(done) => done,
            Err(e) => {
                return Err(CoreError::Radio(e));
            },
        };
        if !done {
            return Ok(Option::None);
        }
        let pkt = match self.radio.get_received() {
            Ok(pkt) => pkt,
            Err(e) => {
                return Err(CoreError::Radio(e));
            },
        };
        match self.radio.start_receive() {
            Ok(()) => {},
            Err(e) => {
                return Err(CoreError::Radio(e));
            },
        }
        self.state = BaseState::Listening;
        Ok(Option::Some(pkt))
    }

    /// Poll for transmit completion; when done, re-arm the receiver.
    pub fn check_transmit(&mut self, now: u64) -> (r: Result<(), CoreError<R::Error>>)
        ensures
            final(self).tx_log == old(self).tx_log,
            match r {
                Ok(()) => final(self).state == old(self).state || final(self).state
                    == BaseState::Listening,
                Err(e) => e is Radio,
            },
    {
        let _ = now;
        let done = match self.radio.check_transmit() {
            Ok(done) => done,
            Err(e) => {
                return Err(CoreError::Radio(e));
            },
        };
        if !done {
            return Ok(());
        }
        match self.radio.start_receive() {
            Ok(()) => {},
            Err(e) => {
                return Err(CoreError::Radio(e));
            },
        }
        self.state = BaseState::Listening;
        Ok(())
    }
}

} // verus!
