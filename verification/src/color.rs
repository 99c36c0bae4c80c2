//! Linear colour, and the bytes it becomes in the picture.

use crate::scalar::{Scalar, ONE_BITS};
use vstd::prelude::*;

verus! {

/// Red, green and blue radiance, linear, each meant to be zero or more.
#[derive(Clone, Copy, Debug)]
pub struct Color(pub Scalar, pub Scalar, pub Scalar);

impl Color {
    /// Every channel is a number that is zero or more.
    pub open spec fn wf(self) -> bool {
        self.0.non_negative() && self.1.non_negative() && self.2.non_negative()
    }

    /// The three bytes of the colour in the picture, red first.
    pub open spec fn bytes(self) -> Seq<u8> {
        seq![self.0.channel() as u8, self.1.channel() as u8, self.2.channel() as u8]
    }

    /// Whether every channel is a number that is zero or more.
    pub fn is_valid(&self) -> (r: bool)
        ensures
            r == self.wf(),
    {
        self.0.is_non_negative() && self.1.is_non_negative() && self.2.is_non_negative()
    }

    /// The bytes written for this colour: each channel times 256, cut to a
    /// whole number and held to 0..=255. A channel that is infinite or not a
    /// number becomes 0.
    pub fn to_rgb(&self) -> (rgb: [u8; 3])
        ensures
            rgb@ == self.bytes(),
    {
        let r: u8 = self.0.to_channel();
        let g: u8 = self.1.to_channel();
        let b: u8 = self.2.to_channel();
        let rgb: [u8; 3] = [r, g, b];
        assert(rgb@ =~= self.bytes());
        rgb
    }

    /// Full red.
    pub fn red() -> (c: Color)
        ensures
            c == Color(Scalar(ONE_BITS), Scalar(0), Scalar(0)),
            c.wf(),
    {
        Color(Scalar(ONE_BITS), Scalar(0), Scalar(0))
    }

    /// Full green.
    pub fn green() -> (c: Color)
        ensures
            c == Color(Scalar(0), Scalar(ONE_BITS), Scalar(0)),
            c.wf(),
    {
        Color(Scalar(0), Scalar(ONE_BITS), Scalar(0))
    }

    /// Full blue.
    pub fn blue() -> (c: Color)
        ensures
            c == Color(Scalar(0), Scalar(0), Scalar(ONE_BITS)),
            c.wf(),
    {
        Color(Scalar(0), Scalar(0), Scalar(ONE_BITS))
    }

    /// No light at all.
    pub fn black() -> (c: Color)
        ensures
            c == Color(Scalar(0), Scalar(0), Scalar(0)),
            c.wf(),
    {
        Color(Scalar(0), Scalar(0), Scalar(0))
    }

    /// Full intensity in every channel.
    pub fn white() -> (c: Color)
        ensures
            c == Color(Scalar(ONE_BITS), Scalar(ONE_BITS), Scalar(ONE_BITS)),
            c.wf(),
    {
        Color(Scalar(ONE_BITS), Scalar(ONE_BITS), Scalar(ONE_BITS))
    }
}

} // verus!
