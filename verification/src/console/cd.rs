//! The CD drive's command interface: queued commands, parameters and responses.
use vstd::prelude::*;
use std::collections::VecDeque;

verus! {

/// The response bytes that a command leaves, given the parameter queue it finds.
/// Only the BIOS date query (command 0x19, sub-function 0x20) answers, with four
/// zero bytes; every other command answers nothing.
pub open spec fn command_response(cmd: u8, parameters: Seq<u8>) -> Seq<u8> {
    if cmd == 0x19 && parameters.len() > 0 && parameters[0] == 0x20 {
        seq![0u8, 0u8, 0u8, 0u8]
    } else {
        Seq::empty()
    }
}

/// The parameter queue that a command leaves: the test command (0x19) consumes its
/// sub-function byte.
pub open spec fn parameters_after(cmd: u8, parameters: Seq<u8>) -> Seq<u8> {
    if cmd == 0x19 {
        parameters.drop_first()
    } else {
        parameters
    }
}

pub struct CD {
    contents: Option<Vec<u8>>,
    command_buffer: VecDeque<u8>,
    parameter_buffer: VecDeque<u8>,
    response_buffer: VecDeque<u8>,
}

impl CD {
    pub closed spec fn disc(&self) -> Option<Seq<u8>> {
        match self.contents {
            Some(v) => Some(v@),
            None => None,
        }
    }

    pub closed spec fn commands(&self) -> Seq<u8> {
        self.command_buffer@
    }

    pub closed spec fn parameters(&self) -> Seq<u8> {
        self.parameter_buffer@
    }

    pub closed spec fn responses(&self) -> Seq<u8> {
        self.response_buffer@
    }

    /// A drive holding the given disc image (or none), with empty queues.
    pub fn new(contents: Option<Vec<u8>>) -> (r: Self)
        ensures
            r.disc() == (match contents {
                Some(v) => Some(v@),
                None => None,
            }),
            r.commands().len() == 0,
            r.parameters().len() == 0,
            r.responses().len() == 0,
    {
        CD {
            contents,
            command_buffer: VecDeque::new(),
            parameter_buffer: VecDeque::new(),
            response_buffer: VecDeque::new(),
        }
    }

    /// The oldest response byte, or 0 when there is none.
    pub fn read_response(&mut self) -> (r: u32)
        ensures
            old(self).responses().len() == 0 ==> r == 0 && final(self).responses() == old(self).responses(),
            old(self).responses().len() > 0 ==> r == old(self).responses()[0] && final(self).responses() == old(self).responses().drop_first(),
            final(self).commands() == old(self).commands(),
            final(self).parameters() == old(self).parameters(),
            final(self).disc() == old(self).disc(),
    {
        match self.response_buffer.pop_front() {
            Some(response) => response as u32,
            None => 0,
        }
    }

    pub fn send_parameter(&mut self, val: u8)
        ensures
            final(self).parameters() == old(self).parameters().push(val),
            final(self).commands() == old(self).commands(),
            final(self).responses() == old(self).responses(),
            final(self).disc() == old(self).disc(),
    {
        self.parameter_buffer.push_back(val);
    }

    pub fn send_command(&mut self, cmd: u8)
        ensures
            final(self).commands() == old(self).commands().push(cmd),
            final(self).parameters() == old(self).parameters(),
            final(self).responses() == old(self).responses(),
            final(self).disc() == old(self).disc(),
    {
        self.command_buffer.push_back(cmd);
    }

    /// Whether `exec_command` can run now: a queued test command (0x19) finds its
    /// sub-function among the parameters.
    pub fn can_exec_command(&self) -> (r: bool)
        ensures
            r == (self.commands().len() > 0 && self.commands()[0] == 0x19 ==> self.parameters().len() > 0),
    {
        if self.command_buffer.len() > 0 && self.command_buffer[0] == 0x19 {
            self.parameter_buffer.len() > 0
        } else {
            true
        }
    }

    /// Runs the oldest queued command, if any.
    pub fn exec_command(&mut self)
        requires
            old(self).commands().len() > 0 && old(self).commands()[0] == 0x19 ==> old(self).parameters().len() > 0,
        ensures
            old(self).commands().len() == 0 ==> final(self).commands() == old(self).commands()
                && final(self).parameters() == old(self).parameters() && final(self).responses()
                == old(self).responses(),
            old(self).commands().len() > 0 ==> ({
                let cmd = old(self).commands()[0];
                &&& final(self).commands() == old(self).commands().drop_first()
                &&& final(self).parameters() == parameters_after(cmd, old(self).parameters())
                &&& final(self).responses() == old(self).responses() + command_response(
                    cmd,
                    old(self).parameters(),
                )
            }),
            final(self).disc() == old(self).disc(),
    {
        let ghost resp0 = self.response_buffer@;
        match self.command_buffer.pop_front() {
            Some(cmd) => {
                if cmd == 0x19 {
                    let sub_function = self.parameter_buffer.pop_front();
                    match sub_function {
                        Some(sub_function) => {
                            if sub_function == 0x20 {
                                let yy: u8 = 0;
                                let mm: u8 = 0;
                                let dd: u8 = 0;
                                let version: u8 = 0;
                                self.response_buffer.push_back(yy);
                                self.response_buffer.push_back(mm);
                                self.response_buffer.push_back(dd);
                                self.response_buffer.push_back(version);
                                assert(self.response_buffer@ =~= resp0 + seq![0u8, 0u8, 0u8, 0u8]);
                            } else {
                                assert(self.response_buffer@ =~= resp0 + Seq::<u8>::empty());
                            }
                        },
                        None => {},
                    }
                } else {
                    assert(self.response_buffer@ =~= resp0 + Seq::<u8>::empty());
                }
            },
            None => {},
        }
    }
}

} // verus!
