//! A small contract with an owner, a message and a counter.

use crate::bytes::clone_bytes;
use crate::env::{Address, Env};
use crate::text::{decimal, push_bytes, push_decimal};
use vstd::prelude::*;

verus! {

/// "Hello, "
pub const HELLO_BEFORE: [u8; 7] = [72, 101, 108, 108, 111, 44, 32];

/// "! Welcome to StellHydra on Stellar!"
pub const HELLO_AFTER: [u8; 35] = [
    33, 32, 87, 101, 108, 99, 111, 109, 101, 32, 116, 111, 32, 83, 116, 101, 108, 108, 72, 121,
    100, 114, 97, 32, 111, 110, 32, 83, 116, 101, 108, 108, 97, 114, 33,
];

/// "StellHydra Test Contract - Ledger: "
pub const INFO_LEDGER: [u8; 35] = [
    83, 116, 101, 108, 108, 72, 121, 100, 114, 97, 32, 84, 101, 115, 116, 32, 67, 111, 110, 116,
    114, 97, 99, 116, 32, 45, 32, 76, 101, 100, 103, 101, 114, 58, 32,
];

/// ", Timestamp: "
pub const INFO_TIMESTAMP: [u8; 13] = [44, 32, 84, 105, 109, 101, 115, 116, 97, 109, 112, 58, 32];

/// The message that the contract holds, with its history.
#[derive(Debug, PartialEq, Eq)]
pub struct TestData {
    /// The message, as text in bytes.
    pub message: Vec<u8>,
    /// Where the counter stood when the data was last written.
    pub count: u32,
    /// Who initialized the contract.
    pub creator: Address,
    /// The ledger time at which the data was last written.
    pub timestamp: u64,
}

/// What a [`TestData`] holds, as mathematical values.
pub struct TestDataView {
    pub message: Seq<u8>,
    pub count: u32,
    pub creator: Seq<u8>,
    pub timestamp: u64,
}

impl View for TestData {
    type V = TestDataView;

    open spec fn view(&self) -> TestDataView {
        TestDataView {
            message: self.message@,
            count: self.count,
            creator: self.creator@,
            timestamp: self.timestamp,
        }
    }
}

impl Clone for TestData {
    fn clone(&self) -> (copy: TestData)
        ensures
            copy@ == self@,
    {
        TestData {
            message: clone_bytes(&self.message),
            count: self.count,
            creator: self.creator.clone(),
            timestamp: self.timestamp,
        }
    }
}

/// Why a call was turned away.
#[derive(Clone, Copy, Debug, PartialEq, Eq, Structural)]
pub enum TestError {
    /// The contract was initialized before.
    AlreadyInitialized,
    /// The contract was not initialized yet.
    NotInitialized,
    /// The owner did not authorize the call.
    Unauthorized,
    /// The counter stands at its greatest value.
    CounterOverflow,
}

/// What the initialized contract holds, as mathematical values.
pub struct TestState {
    pub owner: Seq<u8>,
    pub data: TestDataView,
    pub counter: u32,
}

/// The greeting for `name`.
pub open spec fn greeting(name: Seq<u8>) -> Seq<u8> {
    HELLO_BEFORE@ + name + HELLO_AFTER@
}

/// The line that describes the contract at the given ledger.
pub open spec fn info_line(sequence: u32, timestamp: u64) -> Seq<u8> {
    INFO_LEDGER@ + decimal(sequence as nat) + INFO_TIMESTAMP@ + decimal(timestamp as nat)
}

/// The test contract. Until it is initialized it holds nothing.
#[derive(Debug)]
pub struct StellHydraTest {
    owner: Option<Address>,
    data: Option<TestData>,
    counter: u32,
}

impl View for StellHydraTest {
    type V = Option<TestState>;

    closed spec fn view(&self) -> Option<TestState> {
        match (self.owner, self.data) {
            (Some(owner), Some(data)) => Some(
                TestState { owner: owner@, data: data@, counter: self.counter },
            ),
            _ => None,
        }
    }
}

impl StellHydraTest {
    /// Owner and data are there together or not at all; the counter of a
    /// contract that holds nothing is zero, and the data records the counter.
    pub closed spec fn wf(&self) -> bool {
        &&& self.owner.is_some() == self.data.is_some()
        &&& self.owner.is_none() ==> self.counter == 0
        &&& self.data matches Some(data) ==> data.count == self.counter
    }

    /// A contract that was not initialized yet.
    pub fn new() -> (contract: StellHydraTest)
        ensures
            contract@.is_none(),
            contract.wf(),
    {
        StellHydraTest { owner: None, data: None, counter: 0 }
    }

    /// The contract that holds the given owner, data and counter, if they
    /// make a well-formed contract: owner and data are there together or not
    /// at all, without them the counter is zero, and the data records the
    /// counter.
    pub fn restore(owner: Option<Address>, data: Option<TestData>, counter: u32) -> (contract:
        Option<StellHydraTest>)
        ensures
            contract.is_some() == (owner.is_some() == data.is_some() && (owner.is_none()
                ==> counter == 0) && (data matches Some(d) ==> d.count == counter)),
            contract matches Some(c) ==> c.wf() && c@ == match (owner, data) {
                (Some(o), Some(d)) => Some(TestState { owner: o@, data: d@, counter }),
                _ => None,
            },
    {
        let data_fits = match &data {
            Some(d) => d.count == counter,
            None => true,
        };
        if owner.is_some() != data.is_some() || (owner.is_none() && counter != 0) || !data_fits {
            return None;
        }
        Some(StellHydraTest { owner, data, counter })
    }

    /// Makes `owner` the owner and stores the first message.
    ///
    /// Fails with `AlreadyInitialized` on an initialized contract, else with
    /// `Unauthorized` unless `owner` authorized the call.
    pub fn initialize(&mut self, env: &Env, owner: Address, initial_message: Vec<u8>) -> (result:
        Result<(), TestError>)
        requires
            old(self).wf(),
        ensures
            final(self).wf(),
            old(self)@.is_some() ==> result == Err::<(), TestError>(TestError::AlreadyInitialized),
            old(self)@.is_none() && !env.authorizes(owner@) ==> result == Err::<(), TestError>(
                TestError::Unauthorized,
            ),
            old(self)@.is_none() && env.authorizes(owner@) ==> result.is_ok(),
            result.is_err() ==> final(self)@ == old(self)@,
            result.is_ok() ==> final(self)@ == Some(
                TestState {
                    owner: owner@,
                    data: TestDataView {
                        message: initial_message@,
                        count: 0,
                        creator: owner@,
                        timestamp: env.timestamp,
                    },
                    counter: 0,
                },
            ),
    {
        if self.owner.is_some() {
            return Err(TestError::AlreadyInitialized);
        }
        if !env.has_authorized(&owner) {
            return Err(TestError::Unauthorized);
        }
        let creator = owner.clone();
        self.owner = Some(owner);
        self.counter = 0;
        self.data = Some(
            TestData { message: initial_message, count: 0, creator, timestamp: env.timestamp },
        );
        Ok(())
    }

    /// Replaces the message and takes the counter up by one.
    ///
    /// Fails with `NotInitialized`, else with `Unauthorized` unless the owner
    /// authorized the call, else with `CounterOverflow` if the counter cannot
    /// go up.
    pub fn update_message(&mut self, env: &Env, new_message: Vec<u8>) -> (result: Result<
        (),
        TestError,
    >)
        requires
            old(self).wf(),
        ensures
            final(self).wf(),
            old(self)@.is_none() ==> result == Err::<(), TestError>(TestError::NotInitialized),
            old(self)@ matches Some(state) ==> {
                &&& !env.authorizes(state.owner) ==> result == Err::<(), TestError>(
                    TestError::Unauthorized,
                )
                &&& env.authorizes(state.owner) && state.counter == u32::MAX ==> result == Err::<
                    (),
                    TestError,
                >(TestError::CounterOverflow)
                &&& env.authorizes(state.owner) && state.counter < u32::MAX ==> result.is_ok()
                    && final(self)@ == Some(
                    TestState {
                        owner: state.owner,
                        data: TestDataView {
                            message: new_message@,
                            count: (state.counter + 1) as u32,
                            creator: state.data.creator,
                            timestamp: env.timestamp,
                        },
                        counter: (state.counter + 1) as u32,
                    },
                )
            },
            result.is_err() ==> final(self)@ == old(self)@,
    {
        let authorized = match &self.owner {
            None => {
                return Err(TestError::NotInitialized);
            },
            Some(owner) => env.has_authorized(owner),
        };
        if !authorized {
            return Err(TestError::Unauthorized);
        }
        if self.counter == u32::MAX {
            return Err(TestError::CounterOverflow);
        }
        let creator = match &self.data {
            Some(data) => data.creator.clone(),
            None => {
                return Err(TestError::NotInitialized);
            },
        };
        self.counter = self.counter + 1;
        self.data = Some(
            TestData {
                message: new_message,
                count: self.counter,
                creator,
                timestamp: env.timestamp,
            },
        );
        Ok(())
    }

    /// A copy of the data, or `NotInitialized`.
    pub fn get_data(&self) -> (result: Result<TestData, TestError>)
        requires
            self.wf(),
        ensures
            self@.is_none() ==> result == Err::<TestData, TestError>(TestError::NotInitialized),
            self@ matches Some(state) ==> result.is_ok() && result.unwrap()@ == state.data,
    {
        match &self.data {
            Some(data) => Ok(data.clone()),
            None => Err(TestError::NotInitialized),
        }
    }

    /// Where the counter stands; zero before initialization.
    pub fn get_counter(&self) -> (count: u32)
        requires
            self.wf(),
        ensures
            self@.is_none() ==> count == 0,
            self@ matches Some(state) ==> count == state.counter,
    {
        self.counter
    }

    /// The owner, or `NotInitialized`.
    pub fn get_owner(&self) -> (result: Result<Address, TestError>)
        requires
            self.wf(),
        ensures
            self@.is_none() ==> result == Err::<Address, TestError>(TestError::NotInitialized),
            self@ matches Some(state) ==> result.is_ok() && result.unwrap()@ == state.owner,
    {
        match &self.owner {
            Some(owner) => Ok(owner.clone()),
            None => Err(TestError::NotInitialized),
        }
    }

    /// The greeting for `name`: "Hello, ", the name, and
    /// "! Welcome to StellHydra on Stellar!".
    pub fn hello(_env: &Env, name: &Vec<u8>) -> (text: Vec<u8>)
        ensures
            text@ == greeting(name@),
    {
        let mut text: Vec<u8> = Vec::new();
        push_bytes(&mut text, HELLO_BEFORE.as_slice());
        push_bytes(&mut text, name.as_slice());
        push_bytes(&mut text, HELLO_AFTER.as_slice());
        assert(text@ =~= greeting(name@));
        text
    }

    /// Takes the counter up by one, records it in the data, and returns it.
    /// Anyone may call.
    ///
    /// Fails with `NotInitialized`, else with `CounterOverflow` if the counter
    /// cannot go up.
    pub fn increment(&mut self, env: &Env) -> (result: Result<u32, TestError>)
        requires
            old(self).wf(),
        ensures
            final(self).wf(),
            old(self)@.is_none() ==> result == Err::<u32, TestError>(TestError::NotInitialized),
            old(self)@ matches Some(state) ==> {
                &&& state.counter == u32::MAX ==> result == Err::<u32, TestError>(
                    TestError::CounterOverflow,
                )
                &&& state.counter < u32::MAX ==> result == Ok::<u32, TestError>(
                    (state.counter + 1) as u32,
                ) && final(self)@ == Some(
                    TestState {
                        owner: state.owner,
                        data: TestDataView {
                            count: (state.counter + 1) as u32,
                            timestamp: env.timestamp,
                            ..state.data
                        },
                        counter: (state.counter + 1) as u32,
                    },
                )
            },
            result.is_err() ==> final(self)@ == old(self)@,
    {
        let (message, creator) = match &self.data {
            Some(data) => (clone_bytes(&data.message), data.creator.clone()),
            None => {
                return Err(TestError::NotInitialized);
            },
        };
        if self.counter == u32::MAX {
            return Err(TestError::CounterOverflow);
        }
        self.counter = self.counter + 1;
        self.data = Some(
            TestData { message, count: self.counter, creator, timestamp: env.timestamp },
        );
        Ok(self.counter)
    }

    /// Sets the counter back to zero and records that in the data.
    ///
    /// Fails with `NotInitialized`, else with `Unauthorized` unless the owner
    /// authorized the call.
    pub fn reset(&mut self, env: &Env) -> (result: Result<(), TestError>)
        requires
            old(self).wf(),
        ensures
            final(self).wf(),
            old(self)@.is_none() ==> result == Err::<(), TestError>(TestError::NotInitialized),
            old(self)@ matches Some(state) ==> {
                &&& !env.authorizes(state.owner) ==> result == Err::<(), TestError>(
                    TestError::Unauthorized,
                )
                &&& env.authorizes(state.owner) ==> result.is_ok() && final(self)@ == Some(
                    TestState {
                        owner: state.owner,
                        data: TestDataView { count: 0, timestamp: env.timestamp, ..state.data },
                        counter: 0,
                    },
                )
            },
            result.is_err() ==> final(self)@ == old(self)@,
    {
        let authorized = match &self.owner {
            None => {
                return Err(TestError::NotInitialized);
            },
            Some(owner) => env.has_authorized(owner),
        };
        if !authorized {
            return Err(TestError::Unauthorized);
        }
        let (message, creator) = match &self.data {
            Some(data) => (clone_bytes(&data.message), data.creator.clone()),
            None => {
                return Err(TestError::NotInitialized);
            },
        };
        self.counter = 0;
        self.data = Some(TestData { message, count: 0, creator, timestamp: env.timestamp });
        Ok(())
    }

    /// A line that names the contract, the ledger's sequence number and its
    /// time, both in decimal.
    pub fn get_info(env: &Env) -> (text: Vec<u8>)
        ensures
            text@ == info_line(env.sequence, env.timestamp),
    {
        let mut text: Vec<u8> = Vec::new();
        push_bytes(&mut text, INFO_LEDGER.as_slice());
        push_decimal(&mut text, env.sequence as u64);
        push_bytes(&mut text, INFO_TIMESTAMP.as_slice());
        push_decimal(&mut text, env.timestamp);
        assert(text@ =~= info_line(env.sequence, env.timestamp));
        text
    }
}

} // verus!
