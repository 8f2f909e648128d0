use vstd::prelude::*;

verus! {

/// Specifies the type of blur operation, which decides how a CSS radius is read.
#[derive(Debug, Clone, Copy, PartialEq, Eq, Structural)]
pub enum BlurType {
    /// CSS `filter: blur()`: the radius is the standard deviation.
    Filter,
    /// CSS `box-shadow` / `text-shadow` blur: the radius is twice the standard deviation.
    Shadow,
}

/// Largest value a product of two channels can take.
pub const MAX_CHANNEL_PRODUCT: u16 = 65025;

/// The quotient of `v` by 255 as the shift-and-add approximation computes it.
pub open spec fn div_255_approx(v: int) -> int {
    (v + 128 + v / 256) / 256
}

/// Premultiplied value of a colour channel `c` under alpha `a`.
pub open spec fn premultiplied(c: u8, a: u8) -> u8 {
    if a == 0 {
        0
    } else if a < 255 {
        div_255_approx(c as int * a as int) as u8
    } else {
        c
    }
}

/// Straight (non-premultiplied) value of a colour channel `c` under alpha `a`.
pub open spec fn unpremultiplied(c: u8, a: u8) -> u8 {
    if a == 0 {
        0
    } else if a < 255 {
        let v = (c as int * 255 + a as int / 2) / (a as int);
        if v > 255 {
            255
        } else {
            v as u8
        }
    } else {
        c
    }
}

/// Whether the RGBA buffer `new` is `old` with channel map `f` applied to the colour channels
/// of each pixel, under that pixel's alpha; alpha itself is kept.
pub open spec fn channels_mapped(old: Seq<u8>, new: Seq<u8>, f: spec_fn(u8, u8) -> u8) -> bool {
    &&& new.len() == old.len()
    &&& forall|j: int|
        #![trigger new[j]]
        0 <= j < new.len() ==> new[j] == if j % 4 == 3 {
            old[j]
        } else {
            f(old[j], old[j - j % 4 + 3])
        }
}

/// Applies `f` to the colour channels of every pixel of an RGBA buffer.
fn map_channels(image: &mut Vec<u8>, premultiply: bool, f: Ghost<spec_fn(u8, u8) -> u8>)
    requires
        old(image)@.len() % 4 == 0,
        f@ == (if premultiply {
            |c: u8, a: u8| premultiplied(c, a)
        } else {
            |c: u8, a: u8| unpremultiplied(c, a)
        }),
    ensures
        channels_mapped(old(image)@, final(image)@, f@),
{
    let n = image.len();
    let mut i: usize = 0;
    while i < n
        invariant
            n == image@.len(),
            n == old(image)@.len(),
            n % 4 == 0,
            i % 4 == 0,
            i <= n,
            f@ == (if premultiply {
                |c: u8, a: u8| premultiplied(c, a)
            } else {
                |c: u8, a: u8| unpremultiplied(c, a)
            }),
            forall|j: int|
                #![trigger image@[j]]
                0 <= j < i ==> image@[j] == if j % 4 == 3 {
                    old(image)@[j]
                } else {
                    (f@)(old(image)@[j], old(image)@[j - j % 4 + 3])
                },
            forall|j: int| #![trigger image@[j]] i <= j < n ==> image@[j] == old(image)@[j],
        decreases n - i,
    {
        let a = image[i + 3];
        let mut k: usize = 0;
        while k < 3
            invariant
                n == image@.len(),
                n == old(image)@.len(),
                i + 4 <= n,
                i % 4 == 0,
                k <= 3,
                a == old(image)@[i + 3],
                f@ == (if premultiply {
                    |c: u8, a: u8| premultiplied(c, a)
                } else {
                    |c: u8, a: u8| unpremultiplied(c, a)
                }),
                forall|j: int|
                    #![trigger image@[j]]
                    0 <= j < i + k ==> image@[j] == if j % 4 == 3 {
                        old(image)@[j]
                    } else {
                        (f@)(old(image)@[j], old(image)@[j - j % 4 + 3])
                    },
                forall|j: int| #![trigger image@[j]] i + k <= j < n ==> image@[j] == old(image)@[j],
            decreases 3 - k,
        {
            let c = image[i + k];
            let v = if premultiply {
                premultiply_channel(c, a)
            } else {
                unpremultiply_channel(c, a)
            };
            image.set(i + k, v);
            k = k + 1;
        }
        i = i + 4;
    }
}

/// Premultiplies one colour channel by alpha.
fn premultiply_channel(c: u8, a: u8) -> (r: u8)
    ensures
        r == premultiplied(c, a),
{
    if a == 0 {
        0
    } else if a < 255 {
        assert(c as int * a as int <= 255 * 255) by (nonlinear_arith)
            requires
                c <= 255,
                a <= 255,
        ;
        fast_div_255(c as u16 * a as u16)
    } else {
        c
    }
}

/// Turns one premultiplied colour channel back into a straight one.
fn unpremultiply_channel(c: u8, a: u8) -> (r: u8)
    ensures
        r == unpremultiplied(c, a),
{
    if a == 0 {
        0
    } else if a < 255 {
        let v = (c as u16 * 255 + a as u16 / 2) / a as u16;
        if v > 255 {
            255
        } else {
            v as u8
        }
    } else {
        c
    }
}

/// Converts an RGBA buffer from straight alpha to premultiplied alpha.
pub fn premultiply_alpha(image: &mut Vec<u8>)
    requires
        old(image)@.len() % 4 == 0,
    ensures
        channels_mapped(old(image)@, final(image)@, |c: u8, a: u8| premultiplied(c, a)),
{
    map_channels(image, true, Ghost(|c: u8, a: u8| premultiplied(c, a)));
}

/// Converts an RGBA buffer from premultiplied alpha back to straight alpha.
pub fn unpremultiply_alpha(image: &mut Vec<u8>)
    requires
        old(image)@.len() % 4 == 0,
    ensures
        channels_mapped(old(image)@, final(image)@, |c: u8, a: u8| unpremultiplied(c, a)),
{
    map_channels(image, false, Ghost(|c: u8, a: u8| unpremultiplied(c, a)));
}

/// Premultiplying and then unpremultiplying an opaque pixel gives it back unchanged.
pub proof fn lemma_opaque_round_trip(c: u8)
    ensures
        unpremultiplied(premultiplied(c, 255), 255) == c,
{
}

/// Converting a fully opaque buffer to premultiplied alpha, or back, leaves it unchanged, so
/// the blur of such a buffer sees its colours as they are.
pub proof fn lemma_opaque_buffer_unchanged(old: Seq<u8>, new: Seq<u8>, premultiply: bool)
    requires
        old.len() % 4 == 0,
        forall|j: int| 0 <= j < old.len() && j % 4 == 3 ==> old[j] == 255,
        channels_mapped(
            old,
            new,
            if premultiply {
                |c: u8, a: u8| premultiplied(c, a)
            } else {
                |c: u8, a: u8| unpremultiplied(c, a)
            },
        ),
    ensures
        new == old,
{
    assert forall|j: int| 0 <= j < old.len() implies new[j] == old[j] by {
        let p = j - j % 4 + 3;
        assert(p % 4 == 3 && 0 <= p < old.len()) by {
            assert(old.len() % 4 == 0);
        }
    }
    assert(new =~= old);
}

impl BlurType {
    /// The standard deviation, in millionths, that a CSS radius given in millionths stands for.
    pub fn to_sigma(self, css_radius: i64) -> (r: i64)
        ensures
            self == BlurType::Filter ==> r == css_radius,
            self == BlurType::Shadow ==> r == css_radius / 2,
    {
        match self {
            BlurType::Filter => css_radius,
            BlurType::Shadow => {
                if css_radius >= 0 {
                    css_radius / 2
                } else {
                    -((-(css_radius as i128) + 1) / 2) as i64
                }
            },
        }
    }

    /// How far the blur visually extends, in radii, as a fraction `(numerator, denominator)`.
    pub fn extent_multiplier(self) -> (r: (u32, u32))
        ensures
            self == BlurType::Filter ==> r == (3u32, 1u32),
            self == BlurType::Shadow ==> r == (3u32, 2u32),
    {
        match self {
            BlurType::Filter => (3, 1),
            BlurType::Shadow => (3, 2),
        }
    }
}

/// Whether a blur of the given CSS radius (in millionths) changes an image of the given size:
/// a standard deviation of at most one half is invisible, and an empty image has nothing to blur.
pub fn blur_is_visible(width: u32, height: u32, css_radius: i64, blur_type: BlurType) -> (r: bool)
    ensures
        r == (width > 0 && height > 0 && (if blur_type == BlurType::Filter {
            css_radius as int
        } else {
            css_radius / 2
        }) > 500_000),
{
    let sigma = blur_type.to_sigma(css_radius);
    sigma > 500_000 && width > 0 && height > 0
}

/// Fast approximation of integer division by 255 for a product of two channels.
pub fn fast_div_255(v: u16) -> (r: u8)
    requires
        v <= MAX_CHANNEL_PRODUCT,
    ensures
        r as int == div_255_approx(v as int),
{
    let w = v as u32;
    assert((w >> 8u32) == w / 256u32 && (((((w + 128u32) as u32) + (w >> 8u32)) as u32) >> 8u32)
        == (((w + 128u32) as u32) + (w >> 8u32)) as u32 / 256u32) by (bit_vector)
        requires
            w <= 65025u32,
    ;
    ((v + 128 + (v >> 8)) >> 8) as u8
}

} // verus!
