//! A GP0 command: its first word (the opcode and often a color) and its parameters.
use vstd::prelude::*;
use crate::register::upper_bits;
use crate::register::half;
use crate::register::lowest_bits;
use crate::register::lemma_shr_is_div;
use vstd::arithmetic::power2::lemma2_to64;

verus! {

/// The color channel `channel` (0 red, 1 green, 2 blue) of a 24-bit color word.
pub open spec fn color_channel(word: u32, channel: int) -> i16 {
    (((word / pow2_8(channel)) % 0x100) as u32) as i16
}

/// 2^(8 * channel) for the three color channels.
pub open spec fn pow2_8(channel: int) -> u32 {
    if channel == 0 {
        1
    } else if channel == 1 {
        0x100
    } else {
        0x1_0000
    }
}

/// The X coordinate in a vertex word (its low half, signed).
pub open spec fn vertex_x(word: u32) -> i16 {
    (word % 0x1_0000) as i16
}

/// The Y coordinate in a vertex word (its high half, signed).
pub open spec fn vertex_y(word: u32) -> i16 {
    (word / 0x1_0000) as i16
}

/// The opcode of a command whose first word is `word`.
pub open spec fn command_id(word: u32) -> u8 {
    (word / 0x100_0000) as u8
}

/// The X coordinates of all the words after the first.
pub open spec fn xs_consecutive(words: Seq<u32>) -> Seq<i16> {
    Seq::new((words.len() - 1) as nat, |k: int| vertex_x(words[k + 1]))
}

/// The Y coordinates of all the words after the first.
pub open spec fn ys_consecutive(words: Seq<u32>) -> Seq<i16> {
    Seq::new((words.len() - 1) as nat, |k: int| vertex_y(words[k + 1]))
}

/// The X coordinates of the words at odd positions.
pub open spec fn xs_every_other(words: Seq<u32>) -> Seq<i16> {
    Seq::new(words.len() / 2, |k: int| vertex_x(words[2 * k + 1]))
}

/// The Y coordinates of the words at odd positions.
pub open spec fn ys_every_other(words: Seq<u32>) -> Seq<i16> {
    Seq::new(words.len() / 2, |k: int| vertex_y(words[2 * k + 1]))
}

/// The three color channels of every word at an even position, one after the other.
pub open spec fn colors_of(words: Seq<u32>) -> Seq<i16> {
    Seq::new(3 * ((words.len() + 1) / 2), |k: int| color_channel(words[2 * (k / 3)], k % 3))
}

/// The red channel of the first word, once for each of four vertices.
pub open spec fn monochrome_of(words: Seq<u32>) -> Seq<i16> {
    Seq::new(4, |i: int| color_channel(words[0], 0))
}

/// The GP0 opcodes whose length this front end knows.
pub open spec fn known_id(id: u8) -> bool {
    ||| id == 0x00 || id == 0x01 || id == 0x02
    ||| 0x04 <= id <= 0x1f
    ||| id == 0x20 || id == 0x22 || id == 0x24 || id == 0x25 || id == 0x26 || id == 0x27
    ||| id == 0x28 || id == 0x2a || id == 0x2c || id == 0x2d || id == 0x2e || id == 0x2f
    ||| id == 0x30 || id == 0x32 || id == 0x34 || id == 0x36 || id == 0x38 || id == 0x3a
    ||| id == 0x3c || id == 0x3e || id == 0x40 || id == 0x42 || id == 0x48 || id == 0x4a
    ||| id == 0x50 || id == 0x52 || id == 0x58 || id == 0x5a
    ||| 0x60 <= id <= 0x62 && id != 0x61
    ||| 0x64 <= id <= 0x68 || id == 0x6a
    ||| 0x6c <= id <= 0x70 || id == 0x72
    ||| 0x74 <= id <= 0x78 || id == 0x7a
    ||| 0x7c <= id <= 0xef
}

/// The number of words that a command of a fixed length has, or 0 for the commands
/// whose length depends on their contents.
pub open spec fn fixed_len(id: u8) -> nat {
    if id == 0xe1 || id == 0xe2 || id == 0xe3 || id == 0xe4 || id == 0xe5 || id == 0xe6
        || id == 0x01 || id == 0x1f {
        1
    } else if id == 0x68 || id == 0x6a || id == 0x70 || id == 0x72 || id == 0x78 || id == 0x7a {
        2
    } else if (0x6c <= id <= 0x6f) || (0x74 <= id <= 0x77) || (0x7c <= id <= 0x7f) || id == 0x60
        || id == 0x62 || id == 0x40 || id == 0x42 || id == 0x02 || (0xc0 <= id <= 0xdf) {
        3
    } else if id == 0x20 || id == 0x22 || (0x64 <= id <= 0x67) || (0x80 <= id <= 0x9f) || id
        == 0x50 || id == 0x52 {
        4
    } else if id == 0x28 || id == 0x2a {
        5
    } else if id == 0x30 || id == 0x32 {
        6
    } else if 0x24 <= id <= 0x27 {
        7
    } else if id == 0x38 || id == 0x3a {
        8
    } else if (0x2c <= id <= 0x2f) || id == 0x34 || id == 0x36 {
        9
    } else if id == 0x3c || id == 0x3e {
        12
    } else {
        0
    }
}

/// Whether a command is complete: it has all its parameters.
pub open spec fn completed_spec(words: Seq<u32>) -> bool {
    let id = command_id(words[0]);
    if fixed_len(id) > 0 {
        words.len() == fixed_len(id)
    } else if id == 0x48 || id == 0x4a || id == 0x58 || id == 0x5a {
        // polylines end with the terminator word
        words.len() >= 4 && words[words.len() - 1] == 0x5555_5555
    } else if 0xa0 <= id <= 0xbf {
        // a copy to VRAM carries its pixels, two 16-bit pixels per word
        words.len() >= 3 && words.len() == 3 + (((words[2] % 0x1_0000) * (words[2] / 0x1_0000))
            + 1) / 2
    } else {
        // the remaining known commands take no parameters
        true
    }
}

/// The length of a GP0 drawing command, read from the bits of its opcode.
/// A polygon (0x20 to 0x3f) is its command word, a word per vertex, another per vertex
/// when textured (bit 2), and a color word for each vertex after the first when
/// shaded (bit 4); bit 3 makes a four-point polygon of a triangle. A line (0x40 to
/// 0x5f) is its command word, two vertices, and the color of the second when shaded.
/// A rectangle (0x60 to 0x7f) is its command word, its vertex, a texture word when
/// textured (bit 2), and a size word when its size bits (3 and 4) are both clear.
pub open spec fn drawing_words(id: u8) -> nat {
    let textured = (id / 4) % 2 == 1;
    let four_points = (id / 8) % 2 == 1;
    let shaded = (id / 16) % 2 == 1;
    if 0x20 <= id < 0x40 {
        let v: nat = if four_points {
            4
        } else {
            3
        };
        1 + v + (if textured {
            v
        } else {
            0
        }) + (if shaded {
            (v - 1) as nat
        } else {
            0
        })
    } else if 0x40 <= id < 0x60 {
        3 + (if shaded {
            1nat
        } else {
            0
        })
    } else {
        2 + (if textured {
            1nat
        } else {
            0
        }) + (if (id / 8) % 4 == 0 {
            1nat
        } else {
            0
        })
    }
}

/// A polyline: a line opcode with bit 3 set, whose length is set by its terminator.
pub open spec fn polyline_id(id: u8) -> bool {
    0x40 <= id < 0x60 && (id / 8) % 2 == 1
}

/// Every known polygon, line and rectangle opcode of a fixed length has the length
/// that its opcode bits give.
proof fn lemma_fixed_len_is_drawing_words(id: u8)
    requires
        known_id(id),
        0x20 <= id < 0x80,
        !polyline_id(id),
    ensures
        fixed_len(id) == drawing_words(id),
{
}

/// A polygon, line or rectangle command is complete exactly when it holds the
/// command word, its vertices, and the texture, color and size words that its opcode
/// bits call for: a shaded triangle (0x30) takes six words, a textured four-point
/// polygon (0x2c) nine, a 1x1 rectangle (0x68) two.
pub proof fn lemma_drawing_command_complete(words: Seq<u32>)
    requires
        words.len() > 0,
        known_id(command_id(words[0])),
        0x20 <= command_id(words[0]) < 0x80,
        !polyline_id(command_id(words[0])),
    ensures
        completed_spec(words) <==> words.len() == drawing_words(command_id(words[0])),
{
    lemma_fixed_len_is_drawing_words(command_id(words[0]));
}

/// The other known GP0 commands: the environment settings (0xe1 to 0xe6), clearing
/// the cache (0x01) and the interrupt request (0x1f) are one word; a fill (0x02) is its
/// color word, a corner and a size; a copy within VRAM (0x80 to 0x9f) is the command,
/// source, destination and size; a copy to the CPU (0xc0 to 0xdf) the command, a corner
/// and a size; a copy from the CPU (0xa0 to 0xbf) the command, a corner, a size and
/// its pixels, two 16-bit pixels to a word; and the rest do nothing and are complete
/// at once.
pub proof fn lemma_other_command_complete(words: Seq<u32>)
    requires
        words.len() > 0,
        known_id(command_id(words[0])),
        !(0x20 <= command_id(words[0]) < 0x80),
    ensures
        ({
            let id = command_id(words[0]);
            &&& (0xe1 <= id <= 0xe6 || id == 0x01 || id == 0x1f) ==> (completed_spec(words)
                <==> words.len() == 1)
            &&& (id == 0x02 || 0xc0 <= id <= 0xdf) ==> (completed_spec(words) <==> words.len()
                == 3)
            &&& 0x80 <= id <= 0x9f ==> (completed_spec(words) <==> words.len() == 4)
            &&& 0xa0 <= id <= 0xbf ==> (completed_spec(words) <==> words.len() >= 3 && {
                let width = words[2] % 0x1_0000;
                let height = words[2] / 0x1_0000;
                2 * (words.len() - 3) == width * height || 2 * (words.len() - 3) == width
                    * height + 1
            })
            &&& (id == 0x00 || 0x03 <= id <= 0x1e || id == 0xe0 || 0xe7 <= id) ==> completed_spec(
                words,
            )
        }),
{
}

/// The words of a command with first words `words` after `append_parameters` was
/// called with each of `parameters`, in order.
pub open spec fn after_appends(words: Seq<u32>, parameters: Seq<u32>) -> Seq<u32>
    decreases parameters.len(),
{
    if parameters.len() == 0 {
        words
    } else {
        after_appends(words, parameters.drop_last()).push(parameters.last())
    }
}

/// Appending parameters, any number of them, keeps the first word and so the
/// command's id: a command made from `cmd` has id `cmd >> 24` however many
/// parameters follow.
pub proof fn lemma_appends_keep_id(cmd: u32, parameters: Seq<u32>)
    ensures
        after_appends(seq![cmd], parameters) == seq![cmd] + parameters,
        after_appends(seq![cmd], parameters)[0] == cmd,
        command_id(after_appends(seq![cmd], parameters)[0]) == command_id(cmd),
    decreases parameters.len(),
{
    if parameters.len() > 0 {
        lemma_appends_keep_id(cmd, parameters.drop_last());
        assert(seq![cmd] + parameters =~= (seq![cmd] + parameters.drop_last()).push(parameters.last()));
    } else {
        assert(seq![cmd] + parameters =~= seq![cmd]);
    }
}

#[derive(Debug)]
pub struct Command(Vec<u32>);

impl Command {
    /// The words of the command.
    pub closed spec fn words(&self) -> Seq<u32> {
        self.0@
    }

    /// A command always holds its first word.
    pub open spec fn wf(&self) -> bool {
        self.words().len() > 0
    }

    pub fn new(cmd: u32) -> (r: Self)
        ensures
            r.words() == seq![cmd],
            r.wf(),
    {
        let v = vec![cmd];
        Command(v)
    }

    /// Whether this front end knows the length of the commands with id `id`.
    pub fn known(id: u8) -> (r: bool)
        ensures
            r == known_id(id),
    {
        id == 0x00 || id == 0x01 || id == 0x02 || (0x04 <= id && id <= 0x1f) || id == 0x20 || id
            == 0x22 || id == 0x24 || id == 0x25 || id == 0x26 || id == 0x27 || id == 0x28 || id
            == 0x2a || id == 0x2c || id == 0x2d || id == 0x2e || id == 0x2f || id == 0x30 || id
            == 0x32 || id == 0x34 || id == 0x36 || id == 0x38 || id == 0x3a || id == 0x3c || id
            == 0x3e || id == 0x40 || id == 0x42 || id == 0x48 || id == 0x4a || id == 0x50 || id
            == 0x52 || id == 0x58 || id == 0x5a || (0x60 <= id && id <= 0x62 && id != 0x61) || (0x64
            <= id && id <= 0x68) || id == 0x6a || (0x6c <= id && id <= 0x70) || id == 0x72 || (0x74
            <= id && id <= 0x78) || id == 0x7a || (0x7c <= id && id <= 0xef)
    }

    pub fn id(&self) -> (r: u8)
        requires
            self.wf(),
        ensures
            r == command_id(self.words()[0]),
    {
        proof {
            lemma2_to64();
        }
        upper_bits(self.0[0], 8) as u8
    }

    pub fn idx(&self, n: usize) -> (r: u32)
        requires
            n < self.words().len(),
        ensures
            r == self.words()[n as int],
    {
        self.0[n]
    }

    pub fn as_ref(&self) -> (r: &Vec<u32>)
        ensures
            r@ == self.words(),
    {
        &self.0
    }

    pub fn num_words(&self) -> (r: usize)
        ensures
            r == self.words().len(),
    {
        self.0.len()
    }

    pub fn append_parameters(&mut self, parameters: u32)
        ensures
            final(self).words() == old(self).words().push(parameters),
    {
        self.0.push(parameters);
    }

    /// The red channel of the first word, repeated for the four vertices.
    pub fn get_monochrome(&self) -> (r: Vec<i16>)
        requires
            self.wf(),
        ensures
            r@ == monochrome_of(self.words()),
    {
        let c = lowest_bits(self.0[0], 8) as i16;
        proof {
            lemma2_to64();
        }
        let r = vec![c, c, c, c];
        assert(r@ =~= monochrome_of(self.words()));
        r
    }

    /// The red, green and blue channels of every other word, starting at the first.
    pub fn get_colors(&self) -> (r: Vec<i16>)
        ensures
            r@ == colors_of(self.words()),
    {
        let mut r: Vec<i16> = Vec::new();
        let n = self.0.len();
        let m = n / 2 + n % 2;
        let mut k: usize = 0;
        while k < m
            invariant
                n == self.words().len(),
                m == (n + 1) / 2,
                k <= m,
                r@.len() == 3 * k,
                forall|i: int|
                    0 <= i < r@.len() ==> #[trigger] r@[i] == color_channel(
                        self.words()[2 * (i / 3)],
                        i % 3,
                    ),
            decreases m - k,
        {
            let col = self.0[2 * k];
            proof {
                lemma2_to64();
            }
            let c0 = lowest_bits(col, 8) as i16;
            let c1 = lowest_bits(col >> 8, 8) as i16;
            let c2 = lowest_bits(col >> 16, 8) as i16;
            proof { lemma_shr_is_div(col); }
            let ghost old_r = r@;
            r.push(c0);
            r.push(c1);
            r.push(c2);
            assert forall|i: int| 0 <= i < r@.len() implies #[trigger] r@[i] == color_channel(
                self.words()[2 * (i / 3)],
                i % 3,
            ) by {
                if i >= old_r.len() {
                    assert(i / 3 == k);
                }
            }
            k = k + 1;
        }
        assert(r@ =~= colors_of(self.words()));
        r
    }

    /// The X coordinates of all the words after the first.
    pub fn get_xpos_consecutive(&self) -> (r: Vec<i16>)
        requires
            self.wf(),
        ensures
            r@ == xs_consecutive(self.words()),
    {
        let mut r: Vec<i16> = Vec::new();
        let mut j: usize = 1;
        let n = self.0.len();
        while j < n
            invariant
                n == self.words().len(),
                1 <= j <= n,
                r@ == Seq::new((j - 1) as nat, |k: int| vertex_x(self.words()[k + 1])),
            decreases n - j,
        {
            let x = half(self.0[j]) as i16;
            r.push(x);
            assert(r@ =~= Seq::new(j as nat, |k: int| vertex_x(self.words()[k + 1])));
            j = j + 1;
        }
        r
    }

    /// The Y coordinates of all the words after the first.
    pub fn get_ypos_consecutive(&self) -> (r: Vec<i16>)
        requires
            self.wf(),
        ensures
            r@ == ys_consecutive(self.words()),
    {
        let mut r: Vec<i16> = Vec::new();
        let mut j: usize = 1;
        let n = self.0.len();
        while j < n
            invariant
                n == self.words().len(),
                1 <= j <= n,
                r@ == Seq::new((j - 1) as nat, |k: int| vertex_y(self.words()[k + 1])),
            decreases n - j,
        {
            proof {
                lemma2_to64();
            }
            let y = upper_bits(self.0[j], 16) as i16;
            r.push(y);
            assert(r@ =~= Seq::new(j as nat, |k: int| vertex_y(self.words()[k + 1])));
            j = j + 1;
        }
        r
    }

    /// The X coordinates of the words at odd positions (1, 3, 5, ...).
    pub fn get_xpos_every_other(&self) -> (r: Vec<i16>)
        ensures
            r@ == xs_every_other(self.words()),
    {
        let mut r: Vec<i16> = Vec::new();
        let n = self.0.len();
        let m = n / 2;
        let mut k: usize = 0;
        while k < m
            invariant
                n == self.words().len(),
                m == n / 2,
                k <= m,
                r@ == Seq::new(k as nat, |i: int| vertex_x(self.words()[2 * i + 1])),
            decreases m - k,
        {
            let x = half(self.0[2 * k + 1]) as i16;
            r.push(x);
            assert(r@ =~= Seq::new((k + 1) as nat, |i: int| vertex_x(self.words()[2 * i + 1])));
            k = k + 1;
        }
        r
    }

    /// The Y coordinates of the words at odd positions (1, 3, 5, ...).
    pub fn get_ypos_every_other(&self) -> (r: Vec<i16>)
        ensures
            r@ == ys_every_other(self.words()),
    {
        let mut r: Vec<i16> = Vec::new();
        let n = self.0.len();
        let m = n / 2;
        let mut k: usize = 0;
        while k < m
            invariant
                n == self.words().len(),
                m == n / 2,
                k <= m,
                r@ == Seq::new(k as nat, |i: int| vertex_y(self.words()[2 * i + 1])),
            decreases m - k,
        {
            proof {
                lemma2_to64();
            }
            let y = upper_bits(self.0[2 * k + 1], 16) as i16;
            r.push(y);
            assert(r@ =~= Seq::new((k + 1) as nat, |i: int| vertex_y(self.words()[2 * i + 1])));
            k = k + 1;
        }
        r
    }

    /// The X coordinate (0 to 1023) in word `idx` of a VRAM copy command.
    pub fn get_xpos_copy(&self, idx: usize) -> (r: u32)
        requires
            idx < self.words().len(),
        ensures
            r == self.words()[idx as int] % 0x1_0000 % 0x400,
    {
        let h = half(self.idx(idx));
        assert(h & 0x3ff == h % 0x400) by (bit_vector);
        h & 0x3ff
    }

    /// The Y coordinate (0 to 511) in word `idx` of a VRAM copy command.
    pub fn get_ypos_copy(&self, idx: usize) -> (r: u32)
        requires
            idx < self.words().len(),
        ensures
            r == self.words()[idx as int] / 0x1_0000 % 0x200,
    {
        proof {
            lemma2_to64();
        }
        let h = upper_bits(self.idx(idx), 16);
        assert(h & 0x1ff == h % 0x200) by (bit_vector);
        h & 0x1ff
    }

    /// The width (1 to 1024) in word `idx` of a VRAM copy command.
    pub fn get_xsize_copy(&self, idx: usize) -> (r: u32)
        requires
            idx < self.words().len(),
            self.words()[idx as int] % 0x1_0000 > 0,
        ensures
            r == (self.words()[idx as int] % 0x1_0000 - 1) % 0x400 + 1,
    {
        let h = half(self.idx(idx));
        let m = h - 1;
        assert(m & 0x3ff == m % 0x400) by (bit_vector);
        (m & 0x3ff) + 1
    }

    /// The height (1 to 1024) in word `idx` of a VRAM copy command.
    pub fn get_ysize_copy(&self, idx: usize) -> (r: u32)
        requires
            idx < self.words().len(),
            self.words()[idx as int] >= 0x1_0000,
        ensures
            r == (self.words()[idx as int] / 0x1_0000 - 1) % 0x400 + 1,
    {
        let w = self.idx(idx);
        proof { lemma_shr_is_div(w); }
        let m = (w >> 16) - 1;
        assert(m & 0x3ff == m % 0x400) by (bit_vector);
        (m & 0x3ff) + 1
    }

    /// Whether the command holds all its parameters.
    pub fn completed(&self) -> (r: bool)
        requires
            self.wf(),
            known_id(command_id(self.words()[0])),
        ensures
            r == completed_spec(self.words()),
    {
        let id = self.id();
        let n = self.num_words();
        match id {
            0xe1 | 0xe2 | 0xe3 | 0xe4 | 0xe5 | 0xe6 | 0x01 | 0x1f => n == 1,
            0x68 | 0x6a | 0x70 | 0x72 | 0x78 | 0x7a => n == 2,
            0x6c | 0x6d | 0x6e | 0x6f | 0x74 | 0x75 | 0x76 | 0x77 | 0x7c | 0x7d | 0x7e | 0x7f
            | 0x60 | 0x62 | 0x40 | 0x42 | 0x02 => n == 3,
            0x20 | 0x22 | 0x64 | 0x65 | 0x66 | 0x67 | 0x80..=0x9f | 0x50 | 0x52 => n == 4,
            0x28 | 0x2a => n == 5,
            0x30 | 0x32 => n == 6,
            0x24 | 0x25 | 0x26 | 0x27 => n == 7,
            0x38 | 0x3a => n == 8,
            0x2C | 0x2D | 0x2E | 0x2F | 0x34 | 0x36 => n == 9,
            0x3c | 0x3e => n == 12,
            0x48 | 0x4a | 0x58 | 0x5a => { (n >= 4) && self.0[n - 1] == 0x55555555 },
            0xa0..=0xbf => {
                if n < 3 {
                    false
                } else {
                    let ysize = upper_bits(self.0[2], 16);
                    let xsize = half(self.0[2]);
                    proof {
                        lemma2_to64();
                        assert(xsize * ysize <= 0xffff * 0xffff) by (nonlinear_arith)
                            requires xsize < 0x1_0000, ysize < 0x1_0000;
                    }
                    let prod = xsize * ysize;
                    let sum = prod + 1;
                    let num_words = sum >> 1;
                    proof { lemma_shr_is_div(sum); }
                    n == 3 + num_words as usize
                }
            },
            0xc0..=0xdf => n == 3,
            _ => true,
        }
    }
}

} // verus!
