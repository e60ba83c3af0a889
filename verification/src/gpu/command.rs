//! GP0 commands kept as an id byte and parameter bytes, most significant first.
use vstd::prelude::*;
use crate::register::{byte, lemma_shr_is_div};

verus! {

/// Byte `k` (0 for the most significant) of a word.
pub open spec fn word_byte(x: u32, k: int) -> u8 {
    (if k == 0 {
        x / 0x100_0000
    } else if k == 1 {
        (x / 0x1_0000) % 0x100
    } else if k == 2 {
        (x / 0x100) % 0x100
    } else {
        x % 0x100
    }) as u8
}

/// The bytes of a word, most significant first.
pub open spec fn word_bytes(x: u32) -> Seq<u8> {
    seq![word_byte(x, 0), word_byte(x, 1), word_byte(x, 2), word_byte(x, 3)]
}

/// The command ids that `completed` knows.
pub open spec fn known_byte_id(id: u8) -> bool {
    !(0xc0 <= id <= 0xdf) && id != 0x03 && (id <= 0x2f || id == 0x30 || id == 0x32 || id == 0x34
        || id == 0x36 || id == 0x38 || id == 0x3a || id == 0x3c || id == 0x3e || id == 0x40 || id
        == 0x42 || id == 0x48 || id == 0x4a || id == 0x50 || id == 0x52 || id == 0x58 || id == 0x5a
        || (0x60 <= id <= 0xbf && id != 0x61 && id != 0x63 && id != 0x69 && id != 0x6b && id
        != 0x71 && id != 0x73 && id != 0x79 && id != 0x7b) || (0xe0 <= id <= 0xef))
}

/// Whether a command with this id and these parameter bytes has all its parameters.
pub open spec fn byte_completed_spec(id: u8, p: Seq<u8>) -> bool {
    let n = p.len();
    if id == 0x20 || id == 0x22 || (0x64 <= id <= 0x67) || (0x80 <= id <= 0x9f) || id == 0x50
        || id == 0x52 {
        n == 15
    } else if id == 0x28 || id == 0x2a {
        n == 19
    } else if 0x24 <= id <= 0x27 {
        n == 27
    } else if (0x2c <= id <= 0x2f) || id == 0x34 || id == 0x36 {
        n == 35
    } else if id == 0x30 || id == 0x32 {
        n == 23
    } else if id == 0x38 || id == 0x3a {
        n == 31
    } else if id == 0x3c || id == 0x3e {
        n == 47
    } else if id == 0x40 || id == 0x42 || id == 0x60 || id == 0x62 || id == 0x02 || (0x6c <= id
        <= 0x6f) || (0x74 <= id <= 0x77) || (0x7c <= id <= 0x7f) {
        n == 11
    } else if id == 0x48 || id == 0x4a || id == 0x58 || id == 0x5a {
        n >= 15 && p[n - 1] == 0x55 && p[n - 2] == 0x55 && p[n - 3] == 0x55 && p[n - 4] == 0x55
    } else if id == 0x68 || id == 0x6a || id == 0x70 || id == 0x72 || id == 0x78 || id == 0x7a {
        n == 7
    } else if (0xe1 <= id <= 0xe6) || id == 0x01 || id == 0x1f {
        n == 3
    } else if 0xa0 <= id <= 0xbf {
        if n < 11 {
            false
        } else {
            let xsize = p[10] + p[9] * 0x100;
            let ysize = p[8] + p[7] * 0x100;
            n >= xsize * ysize * 2
        }
    } else {
        true
    }
}

/// A GP0 command: its id and the bytes that follow it.
#[derive(Debug)]
pub struct Command {
    id: u8,
    parameters: Vec<u8>,
}

impl Command {
    pub closed spec fn id_spec(&self) -> u8 {
        self.id
    }

    pub closed spec fn parameters_spec(&self) -> Seq<u8> {
        self.parameters@
    }

    /// A command from its first word: the top byte is the id, the other three are the
    /// first parameters.
    pub fn new(cmd: u32) -> (r: Self)
        ensures
            r.id_spec() == word_byte(cmd, 0),
            r.parameters_spec() == word_bytes(cmd).drop_first(),
    {
        proof {
            lemma_shr_is_div(cmd);
        }
        let param1 = byte(cmd >> 16) as u8;
        let param2 = byte(cmd >> 8) as u8;
        let param3 = byte(cmd) as u8;
        let r = Command { id: (cmd >> 24) as u8, parameters: vec![param1, param2, param3] };
        assert(r.parameters@ =~= word_bytes(cmd).drop_first());
        r
    }

    /// The command as one word again; a command has to be a single word for this.
    pub fn serialize(&self) -> (r: u32)
        requires
            self.parameters_spec().len() == 3,
        ensures
            r == self.id_spec() * 0x100_0000 + self.parameters_spec()[0] * 0x1_0000
                + self.parameters_spec()[1] * 0x100 + self.parameters_spec()[2],
    {
        (self.id as u32) * 0x100_0000 + (self.parameters[0] as u32) * 0x1_0000
            + (self.parameters[1] as u32) * 0x100 + (self.parameters[2] as u32)
    }

    pub fn id(&self) -> (r: u8)
        ensures
            r == self.id_spec(),
    {
        self.id
    }

    /// Appends the four bytes of a parameter word, most significant first.
    pub fn append_parameters(&mut self, param: u32)
        ensures
            final(self).id_spec() == old(self).id_spec(),
            final(self).parameters_spec() == old(self).parameters_spec() + word_bytes(param),
    {
        proof {
            lemma_shr_is_div(param);
        }
        let param1 = (param >> 24) as u8;
        let param2 = byte(param >> 16) as u8;
        let param3 = byte(param >> 8) as u8;
        let param4 = byte(param) as u8;
        self.parameters.push(param1);
        self.parameters.push(param2);
        self.parameters.push(param3);
        self.parameters.push(param4);
        assert(self.parameters@ =~= old(self).parameters@ + word_bytes(param));
    }

    /// The length of the command in bytes, its id included.
    pub fn num_bytes(&self) -> (r: usize)
        requires
            self.parameters_spec().len() < usize::MAX,
        ensures
            r == 1 + self.parameters_spec().len(),
    {
        1 + self.parameters.len()
    }

    /// Whether the command has all its parameters (see `byte_completed_spec`).
    pub fn completed(&self) -> (r: bool)
        requires
            known_byte_id(self.id_spec()),
        ensures
            r == byte_completed_spec(self.id_spec(), self.parameters_spec()),
    {
        let id = self.id;
        let n = self.parameters.len();
        if id == 0x20 || id == 0x22 || (0x64 <= id && id <= 0x67) || (0x80 <= id && id <= 0x9f)
            || id == 0x50 || id == 0x52 {
            n == 15
        } else if id == 0x28 || id == 0x2a {
            n == 19
        } else if 0x24 <= id && id <= 0x27 {
            n == 27
        } else if (0x2c <= id && id <= 0x2f) || id == 0x34 || id == 0x36 {
            n == 35
        } else if id == 0x30 || id == 0x32 {
            n == 23
        } else if id == 0x38 || id == 0x3a {
            n == 31
        } else if id == 0x3c || id == 0x3e {
            n == 47
        } else if id == 0x40 || id == 0x42 || id == 0x60 || id == 0x62 || id == 0x02 || (0x6c <= id
            && id <= 0x6f) || (0x74 <= id && id <= 0x77) || (0x7c <= id && id <= 0x7f) {
            n == 11
        } else if id == 0x48 || id == 0x4a || id == 0x58 || id == 0x5a {
            n >= 15 && self.parameters[n - 1] == 0x55 && self.parameters[n - 2] == 0x55
                && self.parameters[n - 3] == 0x55 && self.parameters[n - 4] == 0x55
        } else if id == 0x68 || id == 0x6a || id == 0x70 || id == 0x72 || id == 0x78 || id == 0x7a {
            n == 7
        } else if (0xe1 <= id && id <= 0xe6) || id == 0x01 || id == 0x1f {
            n == 3
        } else if 0xa0 <= id && id <= 0xbf {
            if n < 11 {
                false
            } else {
                //xsize and ysize are measured in halfwords, the parameters in bytes
                let xsize = (self.parameters[10] as u64) + (self.parameters[9] as u64) * 0x100;
                let ysize = (self.parameters[8] as u64) + (self.parameters[7] as u64) * 0x100;
                assert(xsize * ysize <= 0xffff * 0xffff) by (nonlinear_arith)
                    requires
                        xsize <= 0xffff,
                        ysize <= 0xffff,
                ;
                let num_bytes = xsize * ysize * 2;
                (n as u64) >= num_bytes
            }
        } else {
            true
        }
    }
}

/// A one-word command serializes back to the word it was made from.
pub proof fn lemma_serialize_new(cmd: u32, c: Command)
    requires
        c.id_spec() == word_byte(cmd, 0),
        c.parameters_spec() == word_bytes(cmd).drop_first(),
    ensures
        c.id_spec() * 0x100_0000 + c.parameters_spec()[0] * 0x1_0000 + c.parameters_spec()[1]
            * 0x100 + c.parameters_spec()[2] == cmd,
{
    assert(cmd == (cmd / 0x100_0000) * 0x100_0000 + ((cmd / 0x1_0000) % 0x100) * 0x1_0000 + ((cmd
        / 0x100) % 0x100) * 0x100 + cmd % 0x100) by (bit_vector);
}

} // verus!
