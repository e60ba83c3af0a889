//! GP0: rendering and drawing-setting commands.
use vstd::prelude::*;
use super::GPU;
use super::command::Command;
use super::command::command_id;
use super::command::known_id;
use super::command::completed_spec;
use super::command::xs_consecutive;
use super::command::ys_consecutive;
use super::command::xs_every_other;
use super::command::ys_every_other;
use super::command::colors_of;
use super::command::monochrome_of;
use crate::register::lowest_bits;
use crate::register::clear;
use crate::register::clear_mask;
use crate::register::set_mask;
use crate::register::lemma_shr_is_div;
use vstd::arithmetic::power2::lemma2_to64;

verus! {

/// A shape for the screen: its vertices as (x, y) pairs one after the other, and the
/// color channels of its vertices.
pub struct Drawable {
    pub positions: Vec<i16>,
    pub colors: Vec<i16>,
}

impl Drawable {
    pub fn new(positions: Vec<i16>, colors: Vec<i16>) -> (r: Self)
        ensures
            r.positions@ == positions@,
            r.colors@ == colors@,
    {
        Drawable { positions, colors }
    }
}

/// What a GP0 word does to the GPU: it extends the command being received (or
/// starts one), and a command that is then complete joins the queue.
pub open spec fn gp0_written(pre: GPU, post: GPU, value: u32) -> bool {
    let words = match pre.partial_command {
        Some(c) => c.words().push(value),
        None => seq![value],
    };
    &&& if completed_spec(words) {
        &&& post.command_buffer@.len() == pre.command_buffer@.len() + 1
        &&& post.command_buffer@.drop_last() == pre.command_buffer@
        &&& post.command_buffer@.last().words() == words
        &&& post.partial_command is None
    } else {
        &&& post.command_buffer@ == pre.command_buffer@
        &&& post.partial_command matches Some(c) && c.words() == words
    }
    &&& post.gpustat == pre.gpustat
    &&& post.gpuread == pre.gpuread
}

/// The GPU accepts `value` on GP0: a word that starts a command names a known one.
pub open spec fn gp0_accepts(gpu: GPU, value: u32) -> bool {
    &&& gpu.wf()
    &&& !gpu.waiting_for_parameters ==> known_id(command_id(value))
    &&& gpu.partial_command matches Some(c) ==> known_id(command_id(c.words()[0]))
}

/// GP0's reception as words: the words of each queued command, and those of the
/// command still being received.
pub open spec fn gp0_words(gpu: GPU) -> (Seq<Seq<u32>>, Option<Seq<u32>>) {
    (
        gpu.command_buffer@.map_values(|c: Command| c.words()),
        match gpu.partial_command {
            Some(c) => Some(c.words()),
            None => None,
        },
    )
}

/// What one GP0 word does to the reception: it extends the command being received
/// (or starts one), and a command that is then complete joins the queue.
pub open spec fn gp0_step(st: (Seq<Seq<u32>>, Option<Seq<u32>>), value: u32) -> (
    Seq<Seq<u32>>,
    Option<Seq<u32>>,
) {
    let words = match st.1 {
        Some(p) => p.push(value),
        None => seq![value],
    };
    if completed_spec(words) {
        (st.0.push(words), None)
    } else {
        (st.0, Some(words))
    }
}

/// The reception after the words of `data`, one after another.
pub open spec fn gp0_feed(st: (Seq<Seq<u32>>, Option<Seq<u32>>), data: Seq<u32>) -> (
    Seq<Seq<u32>>,
    Option<Seq<u32>>,
)
    decreases data.len(),
{
    if data.len() == 0 {
        st
    } else {
        gp0_step(gp0_feed(st, data.drop_last()), data.last())
    }
}

/// GP0 takes every word of `data` in turn: each word that starts a command, and the
/// first word of the command being received, name a known command.
pub open spec fn gp0_takes(st: (Seq<Seq<u32>>, Option<Seq<u32>>), data: Seq<u32>) -> bool {
    &&& st.1 matches Some(p) ==> p.len() > 0 && known_id(command_id(p[0]))
    &&& forall|i: int|
        0 <= i < data.len() ==> (#[trigger] gp0_feed(st, data.take(i))).1 is None ==> known_id(
            command_id(data[i]),
        )
}

/// One word written to GP0 moves the reception by one step.
proof fn lemma_written_is_step(pre: GPU, post: GPU, value: u32)
    requires
        gp0_written(pre, post, value),
    ensures
        gp0_words(post) == gp0_step(gp0_words(pre), value),
{
    let words = match pre.partial_command {
        Some(c) => c.words().push(value),
        None => seq![value],
    };
    if completed_spec(words) {
        assert(post.command_buffer@ =~= pre.command_buffer@.push(post.command_buffer@.last()));
        assert(gp0_words(post).0 =~= gp0_words(pre).0.push(words));
    } else {
        assert(gp0_words(post).0 =~= gp0_words(pre).0);
    }
}

/// The largest value in a non-empty sequence.
pub open spec fn seq_max(s: Seq<i16>) -> int
    decreases s.len(),
{
    if s.len() <= 1 {
        s[0] as int
    } else {
        let m = seq_max(s.drop_last());
        if s.last() > m { s.last() as int } else { m }
    }
}

/// The smallest value in a non-empty sequence.
pub open spec fn seq_min(s: Seq<i16>) -> int
    decreases s.len(),
{
    if s.len() <= 1 {
        s[0] as int
    } else {
        let m = seq_min(s.drop_last());
        if (s.last() as int) < m { s.last() as int } else { m }
    }
}

/// How far apart the extreme values of a non-empty sequence are.
pub open spec fn spread(s: Seq<i16>) -> int {
    seq_max(s) - seq_min(s)
}

/// The coordinates can be measured: there are some, and their spreads fit in 16 bits.
pub open spec fn measurable(xs: Seq<i16>, ys: Seq<i16>) -> bool {
    xs.len() > 0 && ys.len() > 0 && spread(xs) <= 0x7fff && spread(ys) <= 0x7fff
}

/// Whether a shape is small enough to draw: less than 1023 pixels wide and 511 high.
pub open spec fn within_limits(xs: Seq<i16>, ys: Seq<i16>) -> bool {
    spread(xs) < 1023 && spread(ys) < 511
}

/// The coordinates as (x, y) pairs, one after the other.
pub open spec fn interleave(xs: Seq<i16>, ys: Seq<i16>) -> Seq<i16> {
    Seq::new(
        2 * (if xs.len() <= ys.len() { xs.len() } else { ys.len() }),
        |k: int| if k % 2 == 0 { xs[k / 2] } else { ys[k / 2] },
    )
}

/// The opcodes that `exec_next_gp0_command` carries out.
pub open spec fn executable_id(id: u8) -> bool {
    ||| id == 0x00 || id == 0x01 || (0x04 <= id <= 0x1e) || id == 0xe0 || (0xe7 <= id <= 0xef)
    ||| id == 0x28 || id == 0x2c || id == 0x30 || id == 0x38 || id == 0xa0 || id == 0xc0
    ||| 0xe1 <= id <= 0xe6
}

/// The shape, if any, that a command draws; `None` for the settings commands.
pub open spec fn drawn_shape(words: Seq<u32>) -> Option<(Seq<i16>, Seq<i16>)> {
    let id = command_id(words[0]);
    if id == 0x28 {
        let xs = xs_consecutive(words);
        let ys = ys_consecutive(words);
        if within_limits(xs, ys) {
            Some((interleave(xs, ys), monochrome_of(words)))
        } else {
            None
        }
    } else if id == 0x2c || id == 0x30 || id == 0x38 {
        let xs = xs_every_other(words);
        let ys = ys_every_other(words);
        if within_limits(xs, ys) {
            Some((interleave(xs, ys), if id == 0x2c { monochrome_of(words) } else { colors_of(words) }))
        } else {
            None
        }
    } else {
        None
    }
}

/// A command can be carried out without running into an unhandled case.
pub open spec fn executable(words: Seq<u32>) -> bool {
    let id = command_id(words[0]);
    &&& words.len() > 0
    &&& executable_id(id)
    &&& id == 0x28 ==> measurable(xs_consecutive(words), ys_consecutive(words))
    &&& (id == 0x2c || id == 0x30 || id == 0x38) ==> measurable(
        xs_every_other(words),
        ys_every_other(words),
    )
}

/// The status register after the draw mode command 0xE1: its low ten bits and bit 15
/// come from the command.
pub open spec fn gpustat_after_e1(stat: u32, word: u32) -> u32 {
    (stat & !0x83ffu32) | (word & 0x83ff)
}

/// The status register after the mask bit command 0xE6: bits 11 and 12 come from the
/// two low bits of the command.
pub open spec fn gpustat_after_e6(stat: u32, word: u32) -> u32 {
    (stat & 0xffff_e7ff) | ((word & 3) << 11)
}

proof fn lemma_seq_max_min_push(s: Seq<i16>, v: i16)
    requires
        s.len() > 0,
    ensures
        seq_max(s.push(v)) == (if v > seq_max(s) { v as int } else { seq_max(s) }),
        seq_min(s.push(v)) == (if (v as int) < seq_min(s) { v as int } else { seq_min(s) }),
{
    assert(s.push(v).drop_last() =~= s);
}

proof fn lemma_seq_max_min_bounds(s: Seq<i16>)
    requires
        s.len() > 0,
    ensures
        seq_min(s) <= seq_max(s),
        i16::MIN <= seq_min(s),
        seq_max(s) <= i16::MAX,
    decreases s.len(),
{
    if s.len() > 1 {
        lemma_seq_max_min_bounds(s.drop_last());
    }
}

impl GPU {
    /// The largest and smallest values of a non-empty list.
    fn max_min(v: &Vec<i16>) -> (r: (i16, i16))
        requires
            v@.len() > 0,
        ensures
            r.0 == seq_max(v@),
            r.1 == seq_min(v@),
    {
        let mut mx = v[0];
        let mut mn = v[0];
        let mut i: usize = 1;
        assert(v@.subrange(0, 1) =~= seq![v@[0]]);
        while i < v.len()
            invariant
                1 <= i <= v@.len(),
                mx == seq_max(v@.subrange(0, i as int)),
                mn == seq_min(v@.subrange(0, i as int)),
            decreases v@.len() - i,
        {
            proof {
                lemma_seq_max_min_push(v@.subrange(0, i as int), v@[i as int]);
                assert(v@.subrange(0, i as int).push(v@[i as int]) =~= v@.subrange(0, i + 1));
            }
            if v[i] > mx {
                mx = v[i];
            }
            if v[i] < mn {
                mn = v[i];
            }
            i = i + 1;
        }
        assert(v@.subrange(0, v@.len() as int) =~= v@);
        (mx, mn)
    }

    /// Whether the coordinates are measurable (see `measurable`).
    fn coordinates_measurable(xpos: &Vec<i16>, ypos: &Vec<i16>) -> (r: bool)
        ensures
            r == measurable(xpos@, ypos@),
    {
        if xpos.len() == 0 || ypos.len() == 0 {
            return false;
        }
        let (x_hi, x_lo) = GPU::max_min(xpos);
        let (y_hi, y_lo) = GPU::max_min(ypos);
        (x_hi as i32) - (x_lo as i32) <= 0x7fff && (y_hi as i32) - (y_lo as i32) <= 0x7fff
    }

    /// Whether `exec_next_gp0_command` can carry out the oldest queued command.
    pub fn can_exec_next_gp0_command(&self) -> (r: bool)
        requires
            self.wf(),
        ensures
            r == (self.command_buffer@.len() > 0 ==> executable(self.command_buffer@[0].words())),
    {
        if self.command_buffer.len() == 0 {
            return true;
        }
        let command = &self.command_buffer[0];
        assert(command.wf());
        let id = command.id();
        let known = id == 0x00 || id == 0x01 || (0x04 <= id && id <= 0x1e) || id == 0xe0 || (0xe7
            <= id && id <= 0xef) || id == 0x28 || id == 0x2c || id == 0x30 || id == 0x38 || id == 0xa0
            || id == 0xc0 || (0xe1 <= id && id <= 0xe6);
        if !known {
            return false;
        }
        if id == 0x28 {
            GPU::coordinates_measurable(&command.get_xpos_consecutive(), &command.get_ypos_consecutive())
        } else if id == 0x2c || id == 0x30 || id == 0x38 {
            GPU::coordinates_measurable(&command.get_xpos_every_other(), &command.get_ypos_every_other())
        } else {
            true
        }
    }

    fn object_within_limits(xpos: &Vec<i16>, ypos: &Vec<i16>) -> (r: bool)
        requires
            measurable(xpos@, ypos@),
        ensures
            r == within_limits(xpos@, ypos@),
    {
        let xmax: i16 = 1023;
        let ymax: i16 = 511;
        let (x_hi, x_lo) = GPU::max_min(xpos);
        let (y_hi, y_lo) = GPU::max_min(ypos);
        proof {
            lemma_seq_max_min_bounds(xpos@);
            lemma_seq_max_min_bounds(ypos@);
        }
        let xdiff = x_hi - x_lo;
        let ydiff = y_hi - y_lo;
        xdiff < xmax && ydiff < ymax
    }

    fn zip_positions(xpos: Vec<i16>, ypos: Vec<i16>) -> (r: Vec<i16>)
        ensures
            r@ == interleave(xpos@, ypos@),
    {
        let n = if xpos.len() <= ypos.len() {
            xpos.len()
        } else {
            ypos.len()
        };
        let mut r: Vec<i16> = Vec::new();
        let mut i: usize = 0;
        while i < n
            invariant
                n == (if xpos@.len() <= ypos@.len() { xpos@.len() } else { ypos@.len() }),
                i <= n,
                r@.len() == 2 * i,
                forall|k: int|
                    0 <= k < r@.len() ==> #[trigger] r@[k] == (if k % 2 == 0 {
                        xpos@[k / 2]
                    } else {
                        ypos@[k / 2]
                    }),
            decreases n - i,
        {
            r.push(xpos[i]);
            r.push(ypos[i]);
            i = i + 1;
        }
        assert(r@ =~= interleave(xpos@, ypos@));
        r
    }

    /// Carries out the oldest queued GP0 command and returns the shape it draws, if any.
    pub fn exec_next_gp0_command(&mut self) -> (r: Option<Drawable>)
        requires
            old(self).command_buffer@.len() > 0 ==> executable(
                old(self).command_buffer@[0].words(),
            ),
        ensures
            old(self).command_buffer@.len() == 0 ==> r is None && final(self).command_buffer@ == old(self).command_buffer@ && final(self).gpustat == old(self).gpustat
                && final(self).texture_mask_x == old(self).texture_mask_x
                && final(self).texture_mask_y == old(self).texture_mask_y
                && final(self).texture_offset_x == old(self).texture_offset_x
                && final(self).texture_offset_y == old(self).texture_offset_y
                && final(self).drawing_min_x == old(self).drawing_min_x
                && final(self).drawing_min_y == old(self).drawing_min_y
                && final(self).drawing_max_x == old(self).drawing_max_x
                && final(self).drawing_max_y == old(self).drawing_max_y
                && final(self).drawing_offset_x == old(self).drawing_offset_x
                && final(self).drawing_offset_y == old(self).drawing_offset_y,
            old(self).command_buffer@.len() > 0 ==> ({
                let words = old(self).command_buffer@[0].words();
                let id = command_id(words[0]);
                let w = words[0];
                &&& final(self).command_buffer@ == old(self).command_buffer@.drop_first()
                &&& match drawn_shape(words) {
                    Some((p, c)) => r matches Some(d) && d.positions@ == p && d.colors@ == c,
                    None => r is None,
                }
                &&& final(self).gpustat.0 == (if id == 0xe1 {
                    gpustat_after_e1(old(self).gpustat.0, w)
                } else if id == 0xe6 {
                    gpustat_after_e6(old(self).gpustat.0, w)
                } else {
                    old(self).gpustat.0
                })
                &&& id == 0xe2 ==> final(self).texture_mask_x == w % 0x20 && final(self).texture_mask_y == w / 0x20 % 0x20 && final(self).texture_offset_x == w / 0x400
                    % 0x20 && final(self).texture_offset_y == w / 0x8000 % 0x20
                &&& id != 0xe2 ==> final(self).texture_mask_x == old(self).texture_mask_x && final(self).texture_mask_y == old(self).texture_mask_y && final(self).texture_offset_x
                    == old(self).texture_offset_x && final(self).texture_offset_y == old(self).texture_offset_y
                &&& id == 0xe3 ==> final(self).drawing_min_x == w % 0x400 && final(self).drawing_min_y == w / 0x400 % 0x200
                &&& id != 0xe3 ==> final(self).drawing_min_x == old(self).drawing_min_x && final(self).drawing_min_y == old(self).drawing_min_y
                &&& id == 0xe4 ==> final(self).drawing_max_x == w % 0x400 && final(self).drawing_max_y == w / 0x400 % 0x200
                &&& id != 0xe4 ==> final(self).drawing_max_x == old(self).drawing_max_x && final(self).drawing_max_y == old(self).drawing_max_y
                &&& id == 0xe5 ==> final(self).drawing_offset_x == w % 0x800 && final(self).drawing_offset_y == w / 0x800 % 0x800
                &&& id != 0xe5 ==> final(self).drawing_offset_x == old(self).drawing_offset_x
                    && final(self).drawing_offset_y == old(self).drawing_offset_y
            }),
            final(self).logging == old(self).logging,
            final(self).gpuread == old(self).gpuread,
            final(self).vram == old(self).vram,
            final(self).waiting_for_parameters == old(self).waiting_for_parameters,
            final(self).partial_command == old(self).partial_command,
            final(self).display_x == old(self).display_x,
            final(self).display_y == old(self).display_y,
            final(self).display_range_x1 == old(self).display_range_x1,
            final(self).display_range_x2 == old(self).display_range_x2,
            final(self).display_range_y1 == old(self).display_range_y1,
            final(self).display_range_y2 == old(self).display_range_y2,
    {
        let command = self.command_buffer.pop_front();
        match command {
            Some(command) => {
                let id = command.id();
                proof {
                    lemma2_to64();
                }
                if id == 0x28 {
                    let xpos = command.get_xpos_consecutive();
                    let ypos = command.get_ypos_consecutive();
                    if GPU::object_within_limits(&xpos, &ypos) {
                        let positions = GPU::zip_positions(xpos, ypos);
                        let monochrome = command.get_monochrome();
                        return Some(Drawable::new(positions, monochrome));
                    }
                } else if id == 0x2c {
                    let xpos = command.get_xpos_every_other();
                    let ypos = command.get_ypos_every_other();
                    if GPU::object_within_limits(&xpos, &ypos) {
                        let positions = GPU::zip_positions(xpos, ypos);
                        let cols = command.get_monochrome();
                        return Some(Drawable::new(positions, cols));
                    }
                } else if id == 0x30 || id == 0x38 {
                    let xpos = command.get_xpos_every_other();
                    let ypos = command.get_ypos_every_other();
                    if GPU::object_within_limits(&xpos, &ypos) {
                        let positions = GPU::zip_positions(xpos, ypos);
                        let cols = command.get_colors();
                        return Some(Drawable::new(positions, cols));
                    }
                } else if id == 0xe1 {
                    let mask = 0x0000_83ff;
                    let word = command.idx(0) & mask;
                    let stat = self.gpustat.0;
                    self.gpustat.0 = set_mask(clear_mask(stat, mask), word);
                } else if id == 0xe2 {
                    let word = command.idx(0);
                    self.texture_mask_x = lowest_bits(word, 5);
                    self.texture_mask_y = lowest_bits(word >> 5, 5);
                    self.texture_offset_x = lowest_bits(word >> 10, 5);
                    self.texture_offset_y = lowest_bits(word >> 15, 5);
                    proof { lemma_shr_is_div(word); }
                } else if id == 0xe3 {
                    let word = command.idx(0);
                    self.drawing_min_x = lowest_bits(word, 10);
                    self.drawing_min_y = lowest_bits(word >> 10, 9);
                    proof { lemma_shr_is_div(word); }
                } else if id == 0xe4 {
                    let word = command.idx(0);
                    self.drawing_max_x = lowest_bits(word, 10);
                    self.drawing_max_y = lowest_bits(word >> 10, 9);
                    proof { lemma_shr_is_div(word); }
                } else if id == 0xe5 {
                    let word = command.idx(0);
                    self.drawing_offset_x = lowest_bits(word, 11);
                    self.drawing_offset_y = lowest_bits(word >> 11, 11);
                    proof { lemma_shr_is_div(word); }
                } else if id == 0xe6 {
                    let word = command.idx(0);
                    let mask = lowest_bits(word, 2) << 11;
                    let stat = self.gpustat.0;
                    self.gpustat.0 = set_mask(clear(clear(stat, 11), 12), mask);
                    assert(word & 3 == word % 4) by (bit_vector);
                    assert(((stat & !(1u32 << 11u32)) & !(1u32 << 12u32)) | ((word % 4) << 11u32)
                        == (stat & 0xffff_e7ff) | ((word & 3) << 11)) by (bit_vector);
                }
            },
            None => {},
        }
        None
    }

    /// Whether GP0 takes `value` now: a word that starts a command names one that this
    /// front end knows.
    pub fn accepts_gp0(&self, value: u32) -> (r: bool)
        requires
            self.wf(),
            self.partial_command matches Some(c) ==> known_id(command_id(c.words()[0])),
        ensures
            r == gp0_accepts(*self, value),
    {
        if self.waiting_for_parameters {
            true
        } else {
            let id = (value >> 24) as u8;
            proof {
                crate::register::lemma_shr_is_div(value);
            }
            Command::known(id)
        }
    }

    /// Feeds one word to GP0: it starts a new command or adds a parameter to the one
    /// being received; a command that is complete joins the queue.
    pub fn write_to_gp0(&mut self, value: u32)
        requires
            old(self).wf(),
            !old(self).waiting_for_parameters ==> known_id(command_id(value)),
            old(self).partial_command matches Some(c) ==> known_id(command_id(c.words()[0])),
        ensures
            final(self).wf(),
            gp0_written(*old(self), *final(self), value),
    {
        let cmd = if self.waiting_for_parameters {
            let mut cmd = self.partial_command.take().unwrap();
            cmd.append_parameters(value);
            cmd
        } else {
            Command::new(value)
        };
        self.try_push_command(cmd);
        proof {
            if self.command_buffer@.len() == old(self).command_buffer@.len() + 1 {
                assert(self.command_buffer@.drop_last() =~= old(self).command_buffer@);
            }
        }
    }

    /// Feeds the words of `data` to GP0, one after another.
    pub fn write_words_to_gp0(&mut self, data: &Vec<u32>)
        requires
            old(self).wf(),
            gp0_takes(gp0_words(*old(self)), data@),
        ensures
            final(self).wf(),
            gp0_words(*final(self)) == gp0_feed(gp0_words(*old(self)), data@),
            final(self).gpustat == old(self).gpustat,
            final(self).gpuread == old(self).gpuread,
    {
        let ghost st0 = gp0_words(*self);
        let mut i: usize = 0;
        while i < data.len()
            invariant
                i <= data.len(),
                self.wf(),
                gp0_takes(st0, data@),
                gp0_words(*self) == gp0_feed(st0, data@.take(i as int)),
                gp0_words(*self).1 matches Some(p) ==> known_id(command_id(p[0])),
                self.gpustat == old(self).gpustat,
                self.gpuread == old(self).gpuread,
            decreases data.len() - i,
        {
            let ghost pre = *self;
            assert(data@.take(i as int + 1).drop_last() =~= data@.take(i as int));
            assert(data@.take(i as int + 1).last() == data@[i as int]);
            assert(gp0_feed(st0, data@.take(i as int)).1 is None ==> known_id(
                command_id(data@[i as int]),
            ));
            self.write_to_gp0(data[i]);
            proof {
                lemma_written_is_step(pre, *self, data@[i as int]);
            }
            i = i + 1;
        }
        assert(data@.take(data@.len() as int) =~= data@);
    }

    fn try_push_command(&mut self, cmd: Command)
        requires
            cmd.wf(),
            known_id(command_id(cmd.words()[0])),
            old(self).partial_command is None,
            forall|i: int|
                0 <= i < old(self).command_buffer@.len() ==> (
                #[trigger] old(self).command_buffer@[i]).wf(),
        ensures
            final(self).wf(),
            completed_spec(cmd.words()) ==> final(self).command_buffer@ == old(self).command_buffer@.push(cmd) && final(self).partial_command is None,
            !completed_spec(cmd.words()) ==> final(self).command_buffer@ == old(self).command_buffer@ && final(self).partial_command == Some(cmd),
            final(self).gpustat == old(self).gpustat,
            final(self).gpuread == old(self).gpuread,
    {
        if cmd.completed() {
            self.command_buffer.push_back(cmd);
            self.waiting_for_parameters = false;
        } else {
            self.partial_command = Some(cmd);
            self.waiting_for_parameters = true;
        }
    }
}

/// A one-word command that is complete joins the queue at once.
pub proof fn lemma_single_word_command_queued(value: u32)
    requires
        command_id(value) == 0xe1 || command_id(value) == 0xe2 || command_id(value) == 0xe3
            || command_id(value) == 0xe4 || command_id(value) == 0xe5 || command_id(value) == 0xe6
            || command_id(value) == 0x01 || command_id(value) == 0x1f || command_id(value) == 0x00,
    ensures
        completed_spec(seq![value]),
{
}

} // verus!
