use vstd::prelude::*;

verus! {

/// Types that a [`Vec4D`] can hold in its lanes.
pub trait Element {}

impl<T> Element for T {}

/// Rotation of a 32-bit word to the left by `shift % 32` bits.
pub open spec fn rotl32(x: u32, shift: u32) -> u32 {
    let s = shift % 32;
    if s == 0 {
        x
    } else {
        (x << s) | (x >> ((32 - s) as u32))
    }
}

/// Rotation of a u8 to the left by `shift % 8` bits.
pub open spec fn rotl8(x: u8, shift: u32) -> u8 {
    let s = shift % 8;
    if s == 0 {
        x
    } else {
        (x << s) | (x >> ((8 - s) as u32))
    }
}

/// Rotation of a u16 to the left by `shift % 16` bits.
pub open spec fn rotl16(x: u16, shift: u32) -> u16 {
    let s = shift % 16;
    if s == 0 {
        x
    } else {
        (x << s) | (x >> ((16 - s) as u32))
    }
}

/// Rotation of a u64 to the left by `shift % 64` bits.
pub open spec fn rotl64(x: u64, shift: u32) -> u64 {
    let s = shift % 64;
    if s == 0 {
        x
    } else {
        (x << s) | (x >> ((64 - s) as u32))
    }
}

/// Rotation of a usize to the left by `shift % usize::BITS` bits.
pub open spec fn rotl_usize(x: usize, shift: u32) -> usize {
    let s = shift % usize::BITS;
    if s == 0 {
        x
    } else {
        (x << s) | (x >> ((usize::BITS - s) as u32))
    }
}

/// A vector of four lanes.
#[derive(Clone, Copy)]
pub struct Vec4D<T> where T: Element {
    data: [T; 4],
}

impl<T: Element> View for Vec4D<T> {
    type V = Seq<T>;

    closed spec fn view(&self) -> Seq<T> {
        self.data@
    }
}

impl<T: Element> Vec4D<T> {
    /// A vector whose four lanes all hold `value`.
    pub fn splat(value: T) -> (r: Self)
        where T: Copy,
        ensures
            r@ == seq![value, value, value, value],
    {
        Self { data: [value, value, value, value] }
    }

    /// A vector whose lanes hold the elements of `data`, in order.
    pub fn from_array(data: [T; 4]) -> (r: Self)
        ensures
            r@ == data@,
    {
        Self { data }
    }
}

impl<T: Element> From<Vec4D<T>> for [T; 4] {
    fn from(value: Vec4D<T>) -> (r: [T; 4])
        ensures
            r@ == value@,
    {
        value.data
    }
}

impl<T: Element> vstd::std_specs::convert::FromSpecImpl<Vec4D<T>> for [T; 4] {
    open spec fn obeys_from_spec() -> bool {
        true
    }

    closed spec fn from_spec(v: Vec4D<T>) -> [T; 4] {
        v.data
    }
}

/// Rotation of `x` to the left by `shift % 32` bits.
pub fn rotate_left_word(x: u32, shift: u32) -> (r: u32)
    ensures
        r == rotl32(x, shift),
{
    let s = shift % 32;
    if s == 0 {
        x
    } else {
        (x << s) | (x >> (32 - s))
    }
}

impl Vec4D<u32> {
    /// Rotates each lane to the left by `shift % 32` bits.
    pub fn rotate_left(self, shift: u32) -> (r: Self)
        ensures
            r@.len() == 4,
            forall|i: int| 0 <= i < 4 ==> #[trigger] r@[i] == rotl32(self@[i], shift),
    {
        Self {
            data: [
                rotate_left_word(self.data[0], shift),
                rotate_left_word(self.data[1], shift),
                rotate_left_word(self.data[2], shift),
                rotate_left_word(self.data[3], shift),
            ],
        }
    }

    /// Adds the lanes of `rhs` to those of `self`, wrapping around on overflow.
    pub fn wrapping_add(self, rhs: Self) -> (r: Self)
        ensures
            r@.len() == 4,
            forall|i: int|
                0 <= i < 4 ==> #[trigger] r@[i] == vstd::wrapping::u32_specs::wrapping_add(
                    self@[i],
                    rhs@[i],
                ),
    {
        Self {
            data: [
                self.data[0].wrapping_add(rhs.data[0]),
                self.data[1].wrapping_add(rhs.data[1]),
                self.data[2].wrapping_add(rhs.data[2]),
                self.data[3].wrapping_add(rhs.data[3]),
            ],
        }
    }

    /// Subtracts the lanes of `rhs` from those of `self`, wrapping around on
    /// overflow.
    pub fn wrapping_sub(self, rhs: Self) -> (r: Self)
        ensures
            r@.len() == 4,
            forall|i: int|
                0 <= i < 4 ==> #[trigger] r@[i] == vstd::wrapping::u32_specs::wrapping_sub(
                    self@[i],
                    rhs@[i],
                ),
    {
        Self {
            data: [
                self.data[0].wrapping_sub(rhs.data[0]),
                self.data[1].wrapping_sub(rhs.data[1]),
                self.data[2].wrapping_sub(rhs.data[2]),
                self.data[3].wrapping_sub(rhs.data[3]),
            ],
        }
    }
}

impl core::ops::BitXorAssign for Vec4D<u32> {
    fn bitxor_assign(&mut self, rhs: Self)
        ensures
            final(self)@.len() == 4,
            forall|i: int| 0 <= i < 4 ==> #[trigger] final(self)@[i] == old(self)@[i] ^ rhs@[i],
    {
        self.data = [
            self.data[0] ^ rhs.data[0],
            self.data[1] ^ rhs.data[1],
            self.data[2] ^ rhs.data[2],
            self.data[3] ^ rhs.data[3],
        ];
    }
}

/// Rotation of `x` to the left by `shift % 8` bits.
fn rotate_left_u8(x: u8, shift: u32) -> (r: u8)
    ensures
        r == rotl8(x, shift),
{
    let s = shift % 8;
    if s == 0 {
        x
    } else {
        (x << s) | (x >> (8 - s))
    }
}

/// Rotation of `x` to the left by `shift % 16` bits.
fn rotate_left_u16(x: u16, shift: u32) -> (r: u16)
    ensures
        r == rotl16(x, shift),
{
    let s = shift % 16;
    if s == 0 {
        x
    } else {
        (x << s) | (x >> (16 - s))
    }
}

/// Rotation of `x` to the left by `shift % 64` bits.
fn rotate_left_u64(x: u64, shift: u32) -> (r: u64)
    ensures
        r == rotl64(x, shift),
{
    let s = shift % 64;
    if s == 0 {
        x
    } else {
        (x << s) | (x >> (64 - s))
    }
}

/// Rotation of `x` to the left by `shift % usize::BITS` bits.
fn rotate_left_usize(x: usize, shift: u32) -> (r: usize)
    ensures
        r == rotl_usize(x, shift),
{
    let s = shift % usize::BITS;
    if s == 0 {
        x
    } else {
        (x << s) | (x >> (usize::BITS - s))
    }
}

impl Vec4D<u8> {
    /// Rotates the bits of each lane to the left by `shift` modulo the lane's
    /// width.
    pub fn rotate_left(self, shift: u32) -> (r: Self)
        ensures
            r@.len() == 4,
            forall|i: int| 0 <= i < 4 ==> #[trigger] r@[i] == rotl8(self@[i], shift),
    {
        Self { data: [rotate_left_u8(self.data[0], shift), rotate_left_u8(self.data[1], shift), rotate_left_u8(self.data[2], shift), rotate_left_u8(self.data[3], shift)] }
    }

    /// Adds the lanes of `rhs` to those of `self`, wrapping around on overflow.
    pub fn wrapping_add(self, rhs: Self) -> (r: Self)
        ensures
            r@.len() == 4,
            forall|i: int|
                0 <= i < 4 ==> #[trigger] r@[i] == vstd::wrapping::u8_specs::wrapping_add(
                    self@[i],
                    rhs@[i],
                ),
    {
        Self {
            data: [
                self.data[0].wrapping_add(rhs.data[0]),
                self.data[1].wrapping_add(rhs.data[1]),
                self.data[2].wrapping_add(rhs.data[2]),
                self.data[3].wrapping_add(rhs.data[3]),
            ],
        }
    }

    /// Subtracts the lanes of `rhs` from those of `self`, wrapping around on
    /// overflow.
    pub fn wrapping_sub(self, rhs: Self) -> (r: Self)
        ensures
            r@.len() == 4,
            forall|i: int|
                0 <= i < 4 ==> #[trigger] r@[i] == vstd::wrapping::u8_specs::wrapping_sub(
                    self@[i],
                    rhs@[i],
                ),
    {
        Self {
            data: [
                self.data[0].wrapping_sub(rhs.data[0]),
                self.data[1].wrapping_sub(rhs.data[1]),
                self.data[2].wrapping_sub(rhs.data[2]),
                self.data[3].wrapping_sub(rhs.data[3]),
            ],
        }
    }
}

impl core::ops::BitXorAssign for Vec4D<u8> {
    fn bitxor_assign(&mut self, rhs: Self)
        ensures
            final(self)@.len() == 4,
            forall|i: int| 0 <= i < 4 ==> #[trigger] final(self)@[i] == old(self)@[i] ^ rhs@[i],
    {
        self.data = [
            self.data[0] ^ rhs.data[0],
            self.data[1] ^ rhs.data[1],
            self.data[2] ^ rhs.data[2],
            self.data[3] ^ rhs.data[3],
        ];
    }
}

impl Vec4D<u16> {
    /// Rotates the bits of each lane to the left by `shift` modulo the lane's
    /// width.
    pub fn rotate_left(self, shift: u32) -> (r: Self)
        ensures
            r@.len() == 4,
            forall|i: int| 0 <= i < 4 ==> #[trigger] r@[i] == rotl16(self@[i], shift),
    {
        Self { data: [rotate_left_u16(self.data[0], shift), rotate_left_u16(self.data[1], shift), rotate_left_u16(self.data[2], shift), rotate_left_u16(self.data[3], shift)] }
    }

    /// Adds the lanes of `rhs` to those of `self`, wrapping around on overflow.
    pub fn wrapping_add(self, rhs: Self) -> (r: Self)
        ensures
            r@.len() == 4,
            forall|i: int|
                0 <= i < 4 ==> #[trigger] r@[i] == vstd::wrapping::u16_specs::wrapping_add(
                    self@[i],
                    rhs@[i],
                ),
    {
        Self {
            data: [
                self.data[0].wrapping_add(rhs.data[0]),
                self.data[1].wrapping_add(rhs.data[1]),
                self.data[2].wrapping_add(rhs.data[2]),
                self.data[3].wrapping_add(rhs.data[3]),
            ],
        }
    }

    /// Subtracts the lanes of `rhs` from those of `self`, wrapping around on
    /// overflow.
    pub fn wrapping_sub(self, rhs: Self) -> (r: Self)
        ensures
            r@.len() == 4,
            forall|i: int|
                0 <= i < 4 ==> #[trigger] r@[i] == vstd::wrapping::u16_specs::wrapping_sub(
                    self@[i],
                    rhs@[i],
                ),
    {
        Self {
            data: [
                self.data[0].wrapping_sub(rhs.data[0]),
                self.data[1].wrapping_sub(rhs.data[1]),
                self.data[2].wrapping_sub(rhs.data[2]),
                self.data[3].wrapping_sub(rhs.data[3]),
            ],
        }
    }
}

impl core::ops::BitXorAssign for Vec4D<u16> {
    fn bitxor_assign(&mut self, rhs: Self)
        ensures
            final(self)@.len() == 4,
            forall|i: int| 0 <= i < 4 ==> #[trigger] final(self)@[i] == old(self)@[i] ^ rhs@[i],
    {
        self.data = [
            self.data[0] ^ rhs.data[0],
            self.data[1] ^ rhs.data[1],
            self.data[2] ^ rhs.data[2],
            self.data[3] ^ rhs.data[3],
        ];
    }
}

impl Vec4D<u64> {
    /// Rotates the bits of each lane to the left by `shift` modulo the lane's
    /// width.
    pub fn rotate_left(self, shift: u32) -> (r: Self)
        ensures
            r@.len() == 4,
            forall|i: int| 0 <= i < 4 ==> #[trigger] r@[i] == rotl64(self@[i], shift),
    {
        Self { data: [rotate_left_u64(self.data[0], shift), rotate_left_u64(self.data[1], shift), rotate_left_u64(self.data[2], shift), rotate_left_u64(self.data[3], shift)] }
    }

    /// Adds the lanes of `rhs` to those of `self`, wrapping around on overflow.
    pub fn wrapping_add(self, rhs: Self) -> (r: Self)
        ensures
            r@.len() == 4,
            forall|i: int|
                0 <= i < 4 ==> #[trigger] r@[i] == vstd::wrapping::u64_specs::wrapping_add(
                    self@[i],
                    rhs@[i],
                ),
    {
        Self {
            data: [
                self.data[0].wrapping_add(rhs.data[0]),
                self.data[1].wrapping_add(rhs.data[1]),
                self.data[2].wrapping_add(rhs.data[2]),
                self.data[3].wrapping_add(rhs.data[3]),
            ],
        }
    }

    /// Subtracts the lanes of `rhs` from those of `self`, wrapping around on
    /// overflow.
    pub fn wrapping_sub(self, rhs: Self) -> (r: Self)
        ensures
            r@.len() == 4,
            forall|i: int|
                0 <= i < 4 ==> #[trigger] r@[i] == vstd::wrapping::u64_specs::wrapping_sub(
                    self@[i],
                    rhs@[i],
                ),
    {
        Self {
            data: [
                self.data[0].wrapping_sub(rhs.data[0]),
                self.data[1].wrapping_sub(rhs.data[1]),
                self.data[2].wrapping_sub(rhs.data[2]),
                self.data[3].wrapping_sub(rhs.data[3]),
            ],
        }
    }
}

impl core::ops::BitXorAssign for Vec4D<u64> {
    fn bitxor_assign(&mut self, rhs: Self)
        ensures
            final(self)@.len() == 4,
            forall|i: int| 0 <= i < 4 ==> #[trigger] final(self)@[i] == old(self)@[i] ^ rhs@[i],
    {
        self.data = [
            self.data[0] ^ rhs.data[0],
            self.data[1] ^ rhs.data[1],
            self.data[2] ^ rhs.data[2],
            self.data[3] ^ rhs.data[3],
        ];
    }
}

impl Vec4D<usize> {
    /// Rotates the bits of each lane to the left by `shift` modulo the lane's
    /// width.
    pub fn rotate_left(self, shift: u32) -> (r: Self)
        ensures
            r@.len() == 4,
            forall|i: int| 0 <= i < 4 ==> #[trigger] r@[i] == rotl_usize(self@[i], shift),
    {
        Self { data: [rotate_left_usize(self.data[0], shift), rotate_left_usize(self.data[1], shift), rotate_left_usize(self.data[2], shift), rotate_left_usize(self.data[3], shift)] }
    }

    /// Adds the lanes of `rhs` to those of `self`, wrapping around on overflow.
    pub fn wrapping_add(self, rhs: Self) -> (r: Self)
        ensures
            r@.len() == 4,
            forall|i: int|
                0 <= i < 4 ==> #[trigger] r@[i] == vstd::wrapping::usize_specs::wrapping_add(
                    self@[i],
                    rhs@[i],
                ),
    {
        Self {
            data: [
                self.data[0].wrapping_add(rhs.data[0]),
                self.data[1].wrapping_add(rhs.data[1]),
                self.data[2].wrapping_add(rhs.data[2]),
                self.data[3].wrapping_add(rhs.data[3]),
            ],
        }
    }

    /// Subtracts the lanes of `rhs` from those of `self`, wrapping around on
    /// overflow.
    pub fn wrapping_sub(self, rhs: Self) -> (r: Self)
        ensures
            r@.len() == 4,
            forall|i: int|
                0 <= i < 4 ==> #[trigger] r@[i] == vstd::wrapping::usize_specs::wrapping_sub(
                    self@[i],
                    rhs@[i],
                ),
    {
        Self {
            data: [
                self.data[0].wrapping_sub(rhs.data[0]),
                self.data[1].wrapping_sub(rhs.data[1]),
                self.data[2].wrapping_sub(rhs.data[2]),
                self.data[3].wrapping_sub(rhs.data[3]),
            ],
        }
    }
}

impl core::ops::BitXorAssign for Vec4D<usize> {
    fn bitxor_assign(&mut self, rhs: Self)
        ensures
            final(self)@.len() == 4,
            forall|i: int| 0 <= i < 4 ==> #[trigger] final(self)@[i] == old(self)@[i] ^ rhs@[i],
    {
        self.data = [
            self.data[0] ^ rhs.data[0],
            self.data[1] ^ rhs.data[1],
            self.data[2] ^ rhs.data[2],
            self.data[3] ^ rhs.data[3],
        ];
    }
}

impl Vec4D<i8> {
    /// Rotates the bits of each lane to the left by `shift` modulo the lane's
    /// width.
    pub fn rotate_left(self, shift: u32) -> (r: Self)
        ensures
            r@.len() == 4,
            forall|i: int| 0 <= i < 4 ==> #[trigger] r@[i] == rotl8(self@[i] as u8, shift) as i8,
    {
        Self { data: [rotate_left_u8(self.data[0] as u8, shift) as i8, rotate_left_u8(self.data[1] as u8, shift) as i8, rotate_left_u8(self.data[2] as u8, shift) as i8, rotate_left_u8(self.data[3] as u8, shift) as i8] }
    }

    /// Adds the lanes of `rhs` to those of `self`, wrapping around on overflow.
    pub fn wrapping_add(self, rhs: Self) -> (r: Self)
        ensures
            r@.len() == 4,
            forall|i: int|
                0 <= i < 4 ==> #[trigger] r@[i] == vstd::wrapping::i8_specs::wrapping_add(
                    self@[i],
                    rhs@[i],
                ),
    {
        Self {
            data: [
                self.data[0].wrapping_add(rhs.data[0]),
                self.data[1].wrapping_add(rhs.data[1]),
                self.data[2].wrapping_add(rhs.data[2]),
                self.data[3].wrapping_add(rhs.data[3]),
            ],
        }
    }

    /// Subtracts the lanes of `rhs` from those of `self`, wrapping around on
    /// overflow.
    pub fn wrapping_sub(self, rhs: Self) -> (r: Self)
        ensures
            r@.len() == 4,
            forall|i: int|
                0 <= i < 4 ==> #[trigger] r@[i] == vstd::wrapping::i8_specs::wrapping_sub(
                    self@[i],
                    rhs@[i],
                ),
    {
        Self {
            data: [
                self.data[0].wrapping_sub(rhs.data[0]),
                self.data[1].wrapping_sub(rhs.data[1]),
                self.data[2].wrapping_sub(rhs.data[2]),
                self.data[3].wrapping_sub(rhs.data[3]),
            ],
        }
    }
}

impl core::ops::BitXorAssign for Vec4D<i8> {
    fn bitxor_assign(&mut self, rhs: Self)
        ensures
            final(self)@.len() == 4,
            forall|i: int| 0 <= i < 4 ==> #[trigger] final(self)@[i] == old(self)@[i] ^ rhs@[i],
    {
        self.data = [
            self.data[0] ^ rhs.data[0],
            self.data[1] ^ rhs.data[1],
            self.data[2] ^ rhs.data[2],
            self.data[3] ^ rhs.data[3],
        ];
    }
}

impl Vec4D<i16> {
    /// Rotates the bits of each lane to the left by `shift` modulo the lane's
    /// width.
    pub fn rotate_left(self, shift: u32) -> (r: Self)
        ensures
            r@.len() == 4,
            forall|i: int| 0 <= i < 4 ==> #[trigger] r@[i] == rotl16(self@[i] as u16, shift) as i16,
    {
        Self { data: [rotate_left_u16(self.data[0] as u16, shift) as i16, rotate_left_u16(self.data[1] as u16, shift) as i16, rotate_left_u16(self.data[2] as u16, shift) as i16, rotate_left_u16(self.data[3] as u16, shift) as i16] }
    }

    /// Adds the lanes of `rhs` to those of `self`, wrapping around on overflow.
    pub fn wrapping_add(self, rhs: Self) -> (r: Self)
        ensures
            r@.len() == 4,
            forall|i: int|
                0 <= i < 4 ==> #[trigger] r@[i] == vstd::wrapping::i16_specs::wrapping_add(
                    self@[i],
                    rhs@[i],
                ),
    {
        Self {
            data: [
                self.data[0].wrapping_add(rhs.data[0]),
                self.data[1].wrapping_add(rhs.data[1]),
                self.data[2].wrapping_add(rhs.data[2]),
                self.data[3].wrapping_add(rhs.data[3]),
            ],
        }
    }

    /// Subtracts the lanes of `rhs` from those of `self`, wrapping around on
    /// overflow.
    pub fn wrapping_sub(self, rhs: Self) -> (r: Self)
        ensures
            r@.len() == 4,
            forall|i: int|
                0 <= i < 4 ==> #[trigger] r@[i] == vstd::wrapping::i16_specs::wrapping_sub(
                    self@[i],
                    rhs@[i],
                ),
    {
        Self {
            data: [
                self.data[0].wrapping_sub(rhs.data[0]),
                self.data[1].wrapping_sub(rhs.data[1]),
                self.data[2].wrapping_sub(rhs.data[2]),
                self.data[3].wrapping_sub(rhs.data[3]),
            ],
        }
    }
}

impl core::ops::BitXorAssign for Vec4D<i16> {
    fn bitxor_assign(&mut self, rhs: Self)
        ensures
            final(self)@.len() == 4,
            forall|i: int| 0 <= i < 4 ==> #[trigger] final(self)@[i] == old(self)@[i] ^ rhs@[i],
    {
        self.data = [
            self.data[0] ^ rhs.data[0],
            self.data[1] ^ rhs.data[1],
            self.data[2] ^ rhs.data[2],
            self.data[3] ^ rhs.data[3],
        ];
    }
}

impl Vec4D<i32> {
    /// Rotates the bits of each lane to the left by `shift` modulo the lane's
    /// width.
    pub fn rotate_left(self, shift: u32) -> (r: Self)
        ensures
            r@.len() == 4,
            forall|i: int| 0 <= i < 4 ==> #[trigger] r@[i] == rotl32(self@[i] as u32, shift) as i32,
    {
        Self { data: [rotate_left_word(self.data[0] as u32, shift) as i32, rotate_left_word(self.data[1] as u32, shift) as i32, rotate_left_word(self.data[2] as u32, shift) as i32, rotate_left_word(self.data[3] as u32, shift) as i32] }
    }

    /// Adds the lanes of `rhs` to those of `self`, wrapping around on overflow.
    pub fn wrapping_add(self, rhs: Self) -> (r: Self)
        ensures
            r@.len() == 4,
            forall|i: int|
                0 <= i < 4 ==> #[trigger] r@[i] == vstd::wrapping::i32_specs::wrapping_add(
                    self@[i],
                    rhs@[i],
                ),
    {
        Self {
            data: [
                self.data[0].wrapping_add(rhs.data[0]),
                self.data[1].wrapping_add(rhs.data[1]),
                self.data[2].wrapping_add(rhs.data[2]),
                self.data[3].wrapping_add(rhs.data[3]),
            ],
        }
    }

    /// Subtracts the lanes of `rhs` from those of `self`, wrapping around on
    /// overflow.
    pub fn wrapping_sub(self, rhs: Self) -> (r: Self)
        ensures
            r@.len() == 4,
            forall|i: int|
                0 <= i < 4 ==> #[trigger] r@[i] == vstd::wrapping::i32_specs::wrapping_sub(
                    self@[i],
                    rhs@[i],
                ),
    {
        Self {
            data: [
                self.data[0].wrapping_sub(rhs.data[0]),
                self.data[1].wrapping_sub(rhs.data[1]),
                self.data[2].wrapping_sub(rhs.data[2]),
                self.data[3].wrapping_sub(rhs.data[3]),
            ],
        }
    }
}

impl core::ops::BitXorAssign for Vec4D<i32> {
    fn bitxor_assign(&mut self, rhs: Self)
        ensures
            final(self)@.len() == 4,
            forall|i: int| 0 <= i < 4 ==> #[trigger] final(self)@[i] == old(self)@[i] ^ rhs@[i],
    {
        self.data = [
            self.data[0] ^ rhs.data[0],
            self.data[1] ^ rhs.data[1],
            self.data[2] ^ rhs.data[2],
            self.data[3] ^ rhs.data[3],
        ];
    }
}

impl Vec4D<i64> {
    /// Rotates the bits of each lane to the left by `shift` modulo the lane's
    /// width.
    pub fn rotate_left(self, shift: u32) -> (r: Self)
        ensures
            r@.len() == 4,
            forall|i: int| 0 <= i < 4 ==> #[trigger] r@[i] == rotl64(self@[i] as u64, shift) as i64,
    {
        Self { data: [rotate_left_u64(self.data[0] as u64, shift) as i64, rotate_left_u64(self.data[1] as u64, shift) as i64, rotate_left_u64(self.data[2] as u64, shift) as i64, rotate_left_u64(self.data[3] as u64, shift) as i64] }
    }

    /// Adds the lanes of `rhs` to those of `self`, wrapping around on overflow.
    pub fn wrapping_add(self, rhs: Self) -> (r: Self)
        ensures
            r@.len() == 4,
            forall|i: int|
                0 <= i < 4 ==> #[trigger] r@[i] == vstd::wrapping::i64_specs::wrapping_add(
                    self@[i],
                    rhs@[i],
                ),
    {
        Self {
            data: [
                self.data[0].wrapping_add(rhs.data[0]),
                self.data[1].wrapping_add(rhs.data[1]),
                self.data[2].wrapping_add(rhs.data[2]),
                self.data[3].wrapping_add(rhs.data[3]),
            ],
        }
    }

    /// Subtracts the lanes of `rhs` from those of `self`, wrapping around on
    /// overflow.
    pub fn wrapping_sub(self, rhs: Self) -> (r: Self)
        ensures
            r@.len() == 4,
            forall|i: int|
                0 <= i < 4 ==> #[trigger] r@[i] == vstd::wrapping::i64_specs::wrapping_sub(
                    self@[i],
                    rhs@[i],
                ),
    {
        Self {
            data: [
                self.data[0].wrapping_sub(rhs.data[0]),
                self.data[1].wrapping_sub(rhs.data[1]),
                self.data[2].wrapping_sub(rhs.data[2]),
                self.data[3].wrapping_sub(rhs.data[3]),
            ],
        }
    }
}

impl core::ops::BitXorAssign for Vec4D<i64> {
    fn bitxor_assign(&mut self, rhs: Self)
        ensures
            final(self)@.len() == 4,
            forall|i: int| 0 <= i < 4 ==> #[trigger] final(self)@[i] == old(self)@[i] ^ rhs@[i],
    {
        self.data = [
            self.data[0] ^ rhs.data[0],
            self.data[1] ^ rhs.data[1],
            self.data[2] ^ rhs.data[2],
            self.data[3] ^ rhs.data[3],
        ];
    }
}

impl Vec4D<isize> {
    /// Rotates the bits of each lane to the left by `shift` modulo the lane's
    /// width.
    pub fn rotate_left(self, shift: u32) -> (r: Self)
        ensures
            r@.len() == 4,
            forall|i: int| 0 <= i < 4 ==> #[trigger] r@[i] == rotl_usize(self@[i] as usize, shift) as isize,
    {
        Self { data: [rotate_left_usize(self.data[0] as usize, shift) as isize, rotate_left_usize(self.data[1] as usize, shift) as isize, rotate_left_usize(self.data[2] as usize, shift) as isize, rotate_left_usize(self.data[3] as usize, shift) as isize] }
    }

    /// Adds the lanes of `rhs` to those of `self`, wrapping around on overflow.
    pub fn wrapping_add(self, rhs: Self) -> (r: Self)
        ensures
            r@.len() == 4,
            forall|i: int|
                0 <= i < 4 ==> #[trigger] r@[i] == vstd::wrapping::isize_specs::wrapping_add(
                    self@[i],
                    rhs@[i],
                ),
    {
        Self {
            data: [
                self.data[0].wrapping_add(rhs.data[0]),
                self.data[1].wrapping_add(rhs.data[1]),
                self.data[2].wrapping_add(rhs.data[2]),
                self.data[3].wrapping_add(rhs.data[3]),
            ],
        }
    }

    /// Subtracts the lanes of `rhs` from those of `self`, wrapping around on
    /// overflow.
    pub fn wrapping_sub(self, rhs: Self) -> (r: Self)
        ensures
            r@.len() == 4,
            forall|i: int|
                0 <= i < 4 ==> #[trigger] r@[i] == vstd::wrapping::isize_specs::wrapping_sub(
                    self@[i],
                    rhs@[i],
                ),
    {
        Self {
            data: [
                self.data[0].wrapping_sub(rhs.data[0]),
                self.data[1].wrapping_sub(rhs.data[1]),
                self.data[2].wrapping_sub(rhs.data[2]),
                self.data[3].wrapping_sub(rhs.data[3]),
            ],
        }
    }
}

impl core::ops::BitXorAssign for Vec4D<isize> {
    fn bitxor_assign(&mut self, rhs: Self)
        ensures
            final(self)@.len() == 4,
            forall|i: int| 0 <= i < 4 ==> #[trigger] final(self)@[i] == old(self)@[i] ^ rhs@[i],
    {
        self.data = [
            self.data[0] ^ rhs.data[0],
            self.data[1] ^ rhs.data[1],
            self.data[2] ^ rhs.data[2],
            self.data[3] ^ rhs.data[3],
        ];
    }
}

} // verus!
