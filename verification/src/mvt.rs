//! Decoder for the vector-tile binary format: a protobuf message holding
//! named layers, each a list of features with a geometry type and a packed
//! sequence of zigzag-encoded drawing commands.
//!
//! The decoder is total: any malformed input yields `None`, which the
//! renderer turns into a blank tile rather than a failure.  Each parsing
//! function is stated against a specification function over the raw byte
//! sequence, so what the decoder accepts and produces is exact.

use vstd::prelude::*;
use vstd::arithmetic::power2::{lemma2_to64, pow2};

verus! {

/// One run of the pen: the points visited, and whether the run was closed
/// into a ring.
pub struct SubPath {
    /// Cursor positions in tile coordinates, in drawing order.
    pub points: Vec<(i64, i64)>,
    /// Whether the run ended with a close command (a polygon ring).
    pub closed: bool,
}

/// Ghost image of a subpath.
pub struct SubPathV {
    pub points: Seq<(i64, i64)>,
    pub closed: bool,
}

impl View for SubPath {
    type V = SubPathV;

    open spec fn view(&self) -> SubPathV {
        SubPathV { points: self.points@, closed: self.closed }
    }
}

/// One feature: its raw geometry type tag and its decoded pen runs.
pub struct Feature {
    /// Geometry type word as encoded: 1 point, 2 line, 3 polygon, anything
    /// else unknown (drawn as nothing).
    pub geom_type: u64,
    /// The decoded pen runs.
    pub paths: Vec<SubPath>,
}

/// Ghost image of a feature.
pub struct FeatureV {
    pub geom_type: u64,
    pub paths: Seq<SubPathV>,
}

impl View for Feature {
    type V = FeatureV;

    open spec fn view(&self) -> FeatureV {
        FeatureV { geom_type: self.geom_type, paths: self.paths@.map_values(|p: SubPath| p@) }
    }
}

/// One named layer and its features.
pub struct TileLayer {
    /// Layer name bytes as they stand in the tile (UTF-8 in practice).
    pub name: Vec<u8>,
    /// The layer's features in order of appearance.
    pub features: Vec<Feature>,
}

/// Ghost image of a layer.
pub struct TileLayerV {
    pub name: Seq<u8>,
    pub features: Seq<FeatureV>,
}

impl View for TileLayer {
    type V = TileLayerV;

    open spec fn view(&self) -> TileLayerV {
        TileLayerV {
            name: self.name@,
            features: self.features@.map_values(|f: Feature| f@),
        }
    }
}

/// Ghost image of a whole decoded tile.
pub open spec fn layers_view(layers: Seq<TileLayer>) -> Seq<TileLayerV> {
    layers.map_values(|l: TileLayer| l@)
}

/// Base-128 varint read from `pos`, continuing an accumulation: `acc` holds
/// the bits below `shift`.  Yields the value and the position after it, or
/// `None` when the bytes run out, the encoding exceeds 64 bits, or an
/// overlong continuation appears.
pub open spec fn spec_varint_from(bytes: Seq<u8>, pos: int, shift: nat, acc: u64) -> Option<
    (u64, int),
>
    decreases 63 - shift when shift <= 63
{
    if !(0 <= pos < bytes.len()) || shift > 63 {
        None
    } else {
        let b = bytes[pos];
        let low = (b & 0x7f) as nat;
        if low * pow2(shift) + acc > u64::MAX {
            None
        } else {
            let acc2 = (low * pow2(shift) + acc) as u64;
            if b < 0x80 {
                Some((acc2, pos + 1))
            } else if shift + 7 > 63 {
                None
            } else {
                spec_varint_from(bytes, pos + 1, shift + 7, acc2)
            }
        }
    }
}

/// A varint starting at `pos`.
pub open spec fn spec_varint(bytes: Seq<u8>, pos: int) -> Option<(u64, int)> {
    spec_varint_from(bytes, pos, 0, 0)
}

/// Executable varint read.
pub fn parse_varint(bytes: &Vec<u8>, pos: usize) -> (r: Option<(u64, usize)>)
    ensures
        (r is Some) == (spec_varint(bytes@, pos as int) is Some),
        r matches Some(v) ==> spec_varint(bytes@, pos as int) == Some((v.0, v.1 as int)),
        r matches Some(v) ==> pos < v.1 <= bytes@.len(),
{
    let mut p = pos;
    let mut shift: u32 = 0;
    let mut acc: u64 = 0;
    loop
        invariant
            pos <= p,
            shift <= 63,
            spec_varint(bytes@, pos as int) == spec_varint_from(bytes@, p as int, shift as nat, acc),
        decreases 63 - shift,
    {
        if p >= bytes.len() {
            return None;
        }
        let b = bytes[p];
        let low = (b & 0x7f) as u64;
        proof {
            lemma2_to64();
            vstd::arithmetic::power2::lemma_pow2_pos(shift as nat);
            assert(low < 128) by (bit_vector)
                requires
                    low == (b & 0x7f) as u64,
            ;
        }
        let scaled = low.checked_mul(crate::projection::pow2_u64(shift));
        let total = match scaled {
            Some(s) => s.checked_add(acc),
            None => None,
        };
        match total {
            None => {
                proof {
                    assert(spec_varint_from(bytes@, p as int, shift as nat, acc) is None);
                }
                return None;
            },
            Some(acc2) => {
                if b < 0x80 {
                    return Some((acc2, p + 1));
                }
                if shift + 7 > 63 {
                    return None;
                }
                p = p + 1;
                shift = shift + 7;
                acc = acc2;
            },
        }
    }
}

/// Position after an unknown field's payload of the given wire type, within
/// `[pos, end)`: varints are walked over, 64-bit and 32-bit scalars have
/// fixed widths, and length-delimited payloads carry their length.  Group
/// wire types and anything out of range yield `None`.
pub open spec fn spec_skip_field(bytes: Seq<u8>, pos: int, end: int, wire: u64) -> Option<int> {
    if wire == 0 {
        match spec_varint(bytes, pos) {
            Option::None => Option::None,
            Option::Some((_v, next)) => if next <= end {
                Option::Some(next)
            } else {
                Option::None
            },
        }
    } else if wire == 1 {
        if pos + 8 <= end {
            Option::Some(pos + 8)
        } else {
            Option::None
        }
    } else if wire == 2 {
        match spec_varint(bytes, pos) {
            Option::None => Option::None,
            Option::Some((len, next)) => if next + len <= end {
                Option::Some(next + len)
            } else {
                Option::None
            },
        }
    } else if wire == 5 {
        if pos + 4 <= end {
            Option::Some(pos + 4)
        } else {
            Option::None
        }
    } else {
        Option::None
    }
}

/// Executable skip over an unknown field.
pub fn skip_field(bytes: &Vec<u8>, pos: usize, end: usize, wire: u64) -> (r: Option<usize>)
    requires
        pos <= end <= bytes@.len(),
    ensures
        (r is Some) == (spec_skip_field(bytes@, pos as int, end as int, wire) is Some),
        r matches Some(next) ==> spec_skip_field(bytes@, pos as int, end as int, wire) == Some(
            next as int,
        ) && pos <= next <= end,
{
    if wire == 0 {
        match parse_varint(bytes, pos) {
            None => None,
            Some((_v, next)) => {
                if next <= end {
                    Some(next)
                } else {
                    None
                }
            },
        }
    } else if wire == 1 {
        if end - pos >= 8 {
            Some(pos + 8)
        } else {
            None
        }
    } else if wire == 2 {
        match parse_varint(bytes, pos) {
            None => None,
            Some((len, next)) => {
                if next <= end && len <= (end - next) as u64 {
                    Some(next + (len as usize))
                } else {
                    None
                }
            },
        }
    } else if wire == 5 {
        if end - pos >= 4 {
            Some(pos + 4)
        } else {
            None
        }
    } else {
        None
    }
}

/// The unsigned 32-bit words packed as varints in `[pos, end)`, appended to
/// `acc`; `None` when a varint is malformed, a value exceeds 32 bits, or the
/// payload does not end exactly at `end`.
pub open spec fn spec_packed_u32(bytes: Seq<u8>, pos: int, end: int, acc: Seq<u32>) -> Option<
    Seq<u32>,
>
    decreases end - pos when pos <= end
{
    if pos == end {
        Option::Some(acc)
    } else {
        match spec_varint(bytes, pos) {
            Option::None => Option::None,
            Option::Some((v, next)) => if v > u32::MAX || next > end || next <= pos {
                Option::None
            } else {
                spec_packed_u32(bytes, next, end, acc.push(v as u32))
            },
        }
    }
}

/// Executable packed-varint read into a fresh word list.
pub fn parse_packed_u32(bytes: &Vec<u8>, pos: usize, end: usize) -> (r: Option<Vec<u32>>)
    requires
        pos <= end <= bytes@.len(),
    ensures
        (r is Some) == (spec_packed_u32(bytes@, pos as int, end as int, Seq::empty()) is Some),
        r matches Some(ws) ==> spec_packed_u32(bytes@, pos as int, end as int, Seq::empty())
            == Some(ws@),
{
    let mut words: Vec<u32> = Vec::new();
    let mut p = pos;
    while p < end
        invariant
            pos <= p <= end <= bytes@.len(),
            spec_packed_u32(bytes@, pos as int, end as int, Seq::empty()) == spec_packed_u32(
                bytes@,
                p as int,
                end as int,
                words@,
            ),
        decreases end - p,
    {
        match parse_varint(bytes, p) {
            None => {
                return None;
            },
            Some((v, next)) => {
                if v > 0xffff_ffff || next > end {
                    return None;
                }
                words.push(v as u32);
                p = next;
            },
        }
    }
    Some(words)
}

/// Zigzag decoding: even words are non-negative deltas, odd words negative.
pub open spec fn spec_zigzag(v: u64) -> int {
    if v % 2 == 0 {
        (v / 2) as int
    } else {
        -((v / 2) as int) - 1
    }
}

/// Executable zigzag decoding.
pub fn zigzag(v: u64) -> (r: i64)
    requires
        v <= u32::MAX,
    ensures
        r as int == spec_zigzag(v),
{
    if v % 2 == 0 {
        (v / 2) as i64
    } else {
        -((v / 2) as i64) - 1
    }
}

/// The pen machine over decoded geometry words, from word `i` with `rem`
/// repetitions of command `cmd` outstanding, the pen at `(x, y)`, the
/// current run in `cur` and finished runs in `acc`.
///
/// A move command finishes the current run and starts a new one at the
/// shifted pen; a line command extends the run; a close command turns the
/// run into a ring.  The machine rejects unknown commands, zero counts,
/// missing parameters, a close without a run, and any pen position outside
/// the signed 32-bit range.
pub open spec fn spec_geometry_ops(
    words: Seq<u32>,
    i: int,
    cmd: u32,
    rem: nat,
    x: int,
    y: int,
    cur: Seq<(i64, i64)>,
    acc: Seq<SubPathV>,
) -> Option<Seq<SubPathV>>
    decreases words.len() - i, rem when 0 <= i <= words.len()
{
    if rem == 0 {
        if i == words.len() {
            Option::Some(
                if cur.len() > 0 {
                    acc.push(SubPathV { points: cur, closed: false })
                } else {
                    acc
                },
            )
        } else {
            let w = words[i];
            let c = (w % 8) as u32;
            let n = (w / 8) as nat;
            if (c == 1 || c == 2 || c == 7) && n >= 1 {
                spec_geometry_ops(words, i + 1, c, n, x, y, cur, acc)
            } else {
                Option::None
            }
        }
    } else if cmd == 7 {
        if cur.len() == 0 {
            Option::None
        } else {
            spec_geometry_ops(
                words,
                i,
                cmd,
                (rem - 1) as nat,
                x,
                y,
                Seq::empty(),
                acc.push(SubPathV { points: cur, closed: true }),
            )
        }
    } else {
        if i + 2 > words.len() {
            Option::None
        } else {
            let dx = spec_zigzag(words[i] as u64);
            let dy = spec_zigzag(words[i + 1] as u64);
            let nx = x + dx;
            let ny = y + dy;
            if !(-0x8000_0000 <= nx <= 0x7fff_ffff) || !(-0x8000_0000 <= ny <= 0x7fff_ffff) {
                Option::None
            } else if cmd == 1 {
                spec_geometry_ops(
                    words,
                    i + 2,
                    cmd,
                    (rem - 1) as nat,
                    nx,
                    ny,
                    seq![(nx as i64, ny as i64)],
                    if cur.len() > 0 {
                        acc.push(SubPathV { points: cur, closed: false })
                    } else {
                        acc
                    },
                )
            } else {
                spec_geometry_ops(
                    words,
                    i + 2,
                    cmd,
                    (rem - 1) as nat,
                    nx,
                    ny,
                    cur.push((nx as i64, ny as i64)),
                    acc,
                )
            }
        }
    }
}

/// The pen runs described by a feature's geometry words.
pub open spec fn spec_decode_geometry(words: Seq<u32>) -> Option<Seq<SubPathV>> {
    spec_geometry_ops(words, 0, 0, 0, 0, 0, Seq::empty(), Seq::empty())
}

/// Executable pen machine.
pub fn decode_geometry(words: &Vec<u32>) -> (r: Option<Vec<SubPath>>)
    ensures
        (r is Some) == (spec_decode_geometry(words@) is Some),
        r matches Some(paths) ==> spec_decode_geometry(words@) == Some(
            paths@.map_values(|p: SubPath| p@),
        ),
{
    let n = words.len();
    let mut i: usize = 0;
    let mut cmd: u32 = 0;
    let mut rem: u32 = 0;
    let mut x: i64 = 0;
    let mut y: i64 = 0;
    let mut cur: Vec<(i64, i64)> = Vec::new();
    let mut acc: Vec<SubPath> = Vec::new();
    proof {
        assert(acc@.map_values(|p: SubPath| p@) =~= Seq::<SubPathV>::empty());
        assert(cur@ =~= Seq::<(i64, i64)>::empty());
    }
    loop
        invariant
            0 <= i <= n == words@.len(),
            -0x8000_0000 <= x <= 0x7fff_ffff,
            -0x8000_0000 <= y <= 0x7fff_ffff,
            spec_decode_geometry(words@) == spec_geometry_ops(
                words@,
                i as int,
                cmd,
                rem as nat,
                x as int,
                y as int,
                cur@,
                acc@.map_values(|p: SubPath| p@),
            ),
        decreases words@.len() - i, rem,
    {
        if rem == 0 {
            if i == n {
                if cur.len() > 0 {
                    let ghost accv = acc@.map_values(|p: SubPath| p@);
                    let finished = SubPath { points: cur, closed: false };
                    let ghost fv = finished@;
                    acc.push(finished);
                    proof {
                        assert(acc@.map_values(|p: SubPath| p@) =~= accv.push(fv));
                    }
                }
                return Some(acc);
            }
            let w = words[i];
            let c = w % 8;
            let count = w / 8;
            if (c == 1 || c == 2 || c == 7) && count >= 1 {
                cmd = c;
                rem = count;
                i = i + 1;
            } else {
                return None;
            }
        } else if cmd == 7 {
            if cur.len() == 0 {
                return None;
            }
            let ghost accv = acc@.map_values(|p: SubPath| p@);
            let mut run: Vec<(i64, i64)> = Vec::new();
            core::mem::swap(&mut run, &mut cur);
            let ring = SubPath { points: run, closed: true };
            let ghost rv = ring@;
            acc.push(ring);
            proof {
                assert(acc@.map_values(|p: SubPath| p@) =~= accv.push(rv));
            }
            rem = rem - 1;
        } else {
            if n - i < 2 {
                return None;
            }
            let dx = zigzag(words[i] as u64);
            let dy = zigzag(words[i + 1] as u64);
            let nx = x + dx;
            let ny = y + dy;
            if !(-0x8000_0000 <= nx && nx <= 0x7fff_ffff) || !(-0x8000_0000 <= ny && ny
                <= 0x7fff_ffff) {
                return None;
            }
            if cmd == 1 {
                let ghost accv = acc@.map_values(|p: SubPath| p@);
                if cur.len() > 0 {
                    let mut run: Vec<(i64, i64)> = Vec::new();
                    core::mem::swap(&mut run, &mut cur);
                    let open_run = SubPath { points: run, closed: false };
                    let ghost ov = open_run@;
                    acc.push(open_run);
                    proof {
                        assert(acc@.map_values(|p: SubPath| p@) =~= accv.push(ov));
                    }
                }
                cur.truncate(0);
                cur.push((nx, ny));
                proof {
                    assert(cur@ =~= seq![(nx, ny)]);
                }
            } else {
                cur.push((nx, ny));
            }
            x = nx;
            y = ny;
            i = i + 2;
            rem = rem - 1;
        }
    }
}

/// A feature message in `[pos, end)`, folded over its fields: field 3 is the
/// geometry type (last occurrence wins), field 4 carries packed geometry
/// words (occurrences concatenate), anything else is skipped.
pub open spec fn spec_feature_fields(
    bytes: Seq<u8>,
    pos: int,
    end: int,
    gt: u64,
    geom: Seq<u32>,
) -> Option<(u64, Seq<u32>)>
    decreases end - pos when pos <= end
{
    if pos == end {
        Option::Some((gt, geom))
    } else {
        match spec_varint(bytes, pos) {
            Option::None => Option::None,
            Option::Some((tag, p2)) => if p2 > end || p2 <= pos {
                Option::None
            } else {
                let field = tag / 8;
                let wire = tag % 8;
                if field == 3 && wire == 0 {
                    match spec_varint(bytes, p2) {
                        Option::None => Option::None,
                        Option::Some((v, p3)) => if p3 > end || p3 <= pos {
                            Option::None
                        } else {
                            spec_feature_fields(bytes, p3, end, v, geom)
                        },
                    }
                } else if field == 4 && wire == 2 {
                    match spec_varint(bytes, p2) {
                        Option::None => Option::None,
                        Option::Some((len, p3)) => if p3 + len > end || p3 <= pos {
                            Option::None
                        } else {
                            match spec_packed_u32(bytes, p3, p3 + len, Seq::empty()) {
                                Option::None => Option::None,
                                Option::Some(ws) => spec_feature_fields(
                                    bytes,
                                    p3 + len,
                                    end,
                                    gt,
                                    geom + ws,
                                ),
                            }
                        },
                    }
                } else {
                    match spec_skip_field(bytes, p2, end, wire) {
                        Option::None => Option::None,
                        Option::Some(p3) => if p3 <= pos {
                            Option::None
                        } else {
                            spec_feature_fields(bytes, p3, end, gt, geom)
                        },
                    }
                }
            },
        }
    }
}

/// A feature message decoded to its pen runs.
pub open spec fn spec_feature(bytes: Seq<u8>, pos: int, end: int) -> Option<FeatureV> {
    match spec_feature_fields(bytes, pos, end, 0, Seq::empty()) {
        Option::None => Option::None,
        Option::Some((gt, words)) => match spec_decode_geometry(words) {
            Option::None => Option::None,
            Option::Some(paths) => Option::Some(FeatureV { geom_type: gt, paths }),
        },
    }
}

/// Executable feature parse.
pub fn parse_feature(bytes: &Vec<u8>, pos: usize, end: usize) -> (r: Option<Feature>)
    requires
        pos <= end <= bytes@.len(),
    ensures
        (r is Some) == (spec_feature(bytes@, pos as int, end as int) is Some),
        r matches Some(f) ==> spec_feature(bytes@, pos as int, end as int) == Some(f@),
{
    let mut gt: u64 = 0;
    let mut geom: Vec<u32> = Vec::new();
    let mut p = pos;
    proof {
        assert(geom@ =~= Seq::<u32>::empty());
    }
    while p < end
        invariant
            pos <= p <= end <= bytes@.len(),
            spec_feature_fields(bytes@, pos as int, end as int, 0, Seq::empty())
                == spec_feature_fields(bytes@, p as int, end as int, gt, geom@),
        decreases end - p,
    {
        let (tag, p2) = match parse_varint(bytes, p) {
            None => {
                return None;
            },
            Some(t) => t,
        };
        if p2 > end {
            return None;
        }
        let field = tag / 8;
        let wire = tag % 8;
        if field == 3 && wire == 0 {
            let (v, p3) = match parse_varint(bytes, p2) {
                None => {
                    return None;
                },
                Some(t) => t,
            };
            if p3 > end {
                return None;
            }
            gt = v;
            p = p3;
        } else if field == 4 && wire == 2 {
            let (len, p3) = match parse_varint(bytes, p2) {
                None => {
                    return None;
                },
                Some(t) => t,
            };
            if p3 > end || len > (end - p3) as u64 {
                return None;
            }
            let stop = p3 + (len as usize);
            let mut ws = match parse_packed_u32(bytes, p3, stop) {
                None => {
                    return None;
                },
                Some(w) => w,
            };
            let ghost geom_prev = geom@;
            let ghost wsv = ws@;
            geom.append(&mut ws);
            proof {
                assert(geom@ == geom_prev + wsv);
            }
            p = stop;
        } else {
            let p3 = match skip_field(bytes, p2, end, wire) {
                None => {
                    return None;
                },
                Some(t) => t,
            };
            p = p3;
        }
    }
    let paths = match decode_geometry(&geom) {
        None => {
            return None;
        },
        Some(ps) => ps,
    };
    Some(Feature { geom_type: gt, paths })
}

/// A layer message in `[pos, end)`, folded over its fields: field 1 is the
/// layer name (last occurrence wins), field 2 a feature message (occurrences
/// append in order), anything else is skipped.
pub open spec fn spec_layer_fields(
    bytes: Seq<u8>,
    pos: int,
    end: int,
    name: Seq<u8>,
    feats: Seq<FeatureV>,
) -> Option<TileLayerV>
    decreases end - pos when pos <= end
{
    if pos == end {
        Option::Some(TileLayerV { name, features: feats })
    } else {
        match spec_varint(bytes, pos) {
            Option::None => Option::None,
            Option::Some((tag, p2)) => if p2 > end || p2 <= pos {
                Option::None
            } else {
                let field = tag / 8;
                let wire = tag % 8;
                if field == 1 && wire == 2 {
                    match spec_varint(bytes, p2) {
                        Option::None => Option::None,
                        Option::Some((len, p3)) => if p3 + len > end || p3 <= pos {
                            Option::None
                        } else {
                            spec_layer_fields(
                                bytes,
                                p3 + len,
                                end,
                                bytes.subrange(p3, p3 + len),
                                feats,
                            )
                        },
                    }
                } else if field == 2 && wire == 2 {
                    match spec_varint(bytes, p2) {
                        Option::None => Option::None,
                        Option::Some((len, p3)) => if p3 + len > end || p3 <= pos {
                            Option::None
                        } else {
                            match spec_feature(bytes, p3, p3 + len) {
                                Option::None => Option::None,
                                Option::Some(f) => spec_layer_fields(
                                    bytes,
                                    p3 + len,
                                    end,
                                    name,
                                    feats.push(f),
                                ),
                            }
                        },
                    }
                } else {
                    match spec_skip_field(bytes, p2, end, wire) {
                        Option::None => Option::None,
                        Option::Some(p3) => if p3 <= pos {
                            Option::None
                        } else {
                            spec_layer_fields(bytes, p3, end, name, feats)
                        },
                    }
                }
            },
        }
    }
}

/// A layer message decoded.
pub open spec fn spec_layer(bytes: Seq<u8>, pos: int, end: int) -> Option<TileLayerV> {
    spec_layer_fields(bytes, pos, end, Seq::empty(), Seq::empty())
}

/// Executable layer parse.
pub fn parse_layer(bytes: &Vec<u8>, pos: usize, end: usize) -> (r: Option<TileLayer>)
    requires
        pos <= end <= bytes@.len(),
    ensures
        (r is Some) == (spec_layer(bytes@, pos as int, end as int) is Some),
        r matches Some(l) ==> spec_layer(bytes@, pos as int, end as int) == Some(l@),
{
    let mut name: Vec<u8> = Vec::new();
    let mut feats: Vec<Feature> = Vec::new();
    let mut p = pos;
    proof {
        assert(name@ =~= Seq::<u8>::empty());
        assert(feats@.map_values(|f: Feature| f@) =~= Seq::<FeatureV>::empty());
    }
    while p < end
        invariant
            pos <= p <= end <= bytes@.len(),
            spec_layer_fields(bytes@, pos as int, end as int, Seq::empty(), Seq::empty())
                == spec_layer_fields(
                bytes@,
                p as int,
                end as int,
                name@,
                feats@.map_values(|f: Feature| f@),
            ),
        decreases end - p,
    {
        let (tag, p2) = match parse_varint(bytes, p) {
            None => {
                return None;
            },
            Some(t) => t,
        };
        if p2 > end {
            return None;
        }
        let field = tag / 8;
        let wire = tag % 8;
        if field == 1 && wire == 2 {
            let (len, p3) = match parse_varint(bytes, p2) {
                None => {
                    return None;
                },
                Some(t) => t,
            };
            if p3 > end || len > (end - p3) as u64 {
                return None;
            }
            let stop = p3 + (len as usize);
            let raw = vstd::slice::slice_subrange(bytes.as_slice(), p3, stop);
            name = vstd::slice::slice_to_vec(raw);
            p = stop;
        } else if field == 2 && wire == 2 {
            let (len, p3) = match parse_varint(bytes, p2) {
                None => {
                    return None;
                },
                Some(t) => t,
            };
            if p3 > end || len > (end - p3) as u64 {
                return None;
            }
            let stop = p3 + (len as usize);
            let f = match parse_feature(bytes, p3, stop) {
                None => {
                    return None;
                },
                Some(f) => f,
            };
            let ghost featsv = feats@.map_values(|f: Feature| f@);
            let ghost fv = f@;
            feats.push(f);
            proof {
                assert(feats@.map_values(|f: Feature| f@) =~= featsv.push(fv));
            }
            p = stop;
        } else {
            let p3 = match skip_field(bytes, p2, end, wire) {
                None => {
                    return None;
                },
                Some(t) => t,
            };
            p = p3;
        }
    }
    Some(TileLayer { name, features: feats })
}

/// A whole tile message, folded over its fields: field 3 is a layer message
/// (occurrences append in order), anything else is skipped.
pub open spec fn spec_tile_fields(bytes: Seq<u8>, pos: int, end: int, layers: Seq<TileLayerV>)
    -> Option<Seq<TileLayerV>>
    decreases end - pos when pos <= end
{
    if pos == end {
        Option::Some(layers)
    } else {
        match spec_varint(bytes, pos) {
            Option::None => Option::None,
            Option::Some((tag, p2)) => if p2 > end || p2 <= pos {
                Option::None
            } else {
                let field = tag / 8;
                let wire = tag % 8;
                if field == 3 && wire == 2 {
                    match spec_varint(bytes, p2) {
                        Option::None => Option::None,
                        Option::Some((len, p3)) => if p3 + len > end || p3 <= pos {
                            Option::None
                        } else {
                            match spec_layer(bytes, p3, p3 + len) {
                                Option::None => Option::None,
                                Option::Some(l) => spec_tile_fields(
                                    bytes,
                                    p3 + len,
                                    end,
                                    layers.push(l),
                                ),
                            }
                        },
                    }
                } else {
                    match spec_skip_field(bytes, p2, end, wire) {
                        Option::None => Option::None,
                        Option::Some(p3) => if p3 <= pos {
                            Option::None
                        } else {
                            spec_tile_fields(bytes, p3, end, layers)
                        },
                    }
                }
            },
        }
    }
}

/// The layers of a vector tile, or `None` when the payload is malformed.
pub open spec fn spec_decode_tile(bytes: Seq<u8>) -> Option<Seq<TileLayerV>> {
    spec_tile_fields(bytes, 0, bytes.len() as int, Seq::empty())
}

/// Executable tile decode: the named layers with their features' pen runs,
/// or `None` when the payload is malformed anywhere.
pub fn decode_tile(bytes: &Vec<u8>) -> (r: Option<Vec<TileLayer>>)
    ensures
        (r is Some) == (spec_decode_tile(bytes@) is Some),
        r matches Some(ls) ==> spec_decode_tile(bytes@) == Some(layers_view(ls@)),
{
    let end = bytes.len();
    let mut layers: Vec<TileLayer> = Vec::new();
    let mut p: usize = 0;
    proof {
        assert(layers_view(layers@) =~= Seq::<TileLayerV>::empty());
    }
    while p < end
        invariant
            p <= end == bytes@.len(),
            spec_tile_fields(bytes@, 0, end as int, Seq::empty()) == spec_tile_fields(
                bytes@,
                p as int,
                end as int,
                layers_view(layers@),
            ),
        decreases end - p,
    {
        let (tag, p2) = match parse_varint(bytes, p) {
            None => {
                return None;
            },
            Some(t) => t,
        };
        if p2 > end {
            return None;
        }
        let field = tag / 8;
        let wire = tag % 8;
        if field == 3 && wire == 2 {
            let (len, p3) = match parse_varint(bytes, p2) {
                None => {
                    return None;
                },
                Some(t) => t,
            };
            if p3 > end || len > (end - p3) as u64 {
                return None;
            }
            let stop = p3 + (len as usize);
            let l = match parse_layer(bytes, p3, stop) {
                None => {
                    return None;
                },
                Some(l) => l,
            };
            let ghost lsv = layers_view(layers@);
            let ghost lv = l@;
            layers.push(l);
            proof {
                assert(layers_view(layers@) =~= lsv.push(lv));
            }
            p = stop;
        } else {
            let p3 = match skip_field(bytes, p2, end, wire) {
                None => {
                    return None;
                },
                Some(t) => t,
            };
            p = p3;
        }
    }
    Some(layers)
}

} // verus!
