//! The positional join of a decoded shape file and attribute file into
//! domain objects, including the multi-part ring reconstruction.

use vstd::prelude::*;

use crate::dbase::{DbaseFile, DbaseRecord, FieldDescriptor};
use crate::error::Error;
use crate::shape::{Point, Shape, ShpFile, ShpRecord};
use crate::text::{keys_match, trim_chars, trim_to_option};

verus! {

/// One joined domain record: an optional display name, an opaque
/// feature classification taken verbatim from the attributes, and one
/// geometry variant.
#[derive(Debug)]
pub struct Object {
    pub name: Option<String>,
    pub fclass: String,
    pub variant: Variant,
}

/// The geometry of a joined object.
#[derive(Debug)]
pub enum Variant {
    Point(Point),
    Line(Vec<Point>),
    Polygon(Vec<Vec<Point>>),
}

/// Part-start offsets that account for every point: at least one part,
/// starting at zero, in bounds and non-decreasing.
pub open spec fn parts_valid(parts: Seq<i32>, n: int) -> bool {
    &&& parts.len() >= 1
    &&& parts[0] == 0
    &&& forall|i: int| 0 <= i < parts.len() ==> 0 <= #[trigger] parts[i] <= n
    &&& forall|i: int| 0 <= i < parts.len() - 1 ==> #[trigger] parts[i] <= parts[i + 1]
}

/// Where group `i` ends: at the next part's start offset, or at the end
/// of the point array for the final group.
pub open spec fn part_end(parts: Seq<i32>, n: int, i: int) -> int {
    if i == parts.len() - 1 {
        n
    } else {
        parts[i + 1] as int
    }
}

/// The groups are exactly the point array cut at the part offsets, in
/// order.
pub open spec fn groups_match(parts: Seq<i32>, points: Seq<Point>, groups: Seq<Seq<Point>>) -> bool {
    &&& groups.len() == parts.len()
    &&& forall|i: int|
        0 <= i < groups.len() ==> #[trigger] groups[i] == points.subrange(
            parts[i] as int,
            part_end(parts, points.len() as int, i),
        )
}

/// The concatenation of the groups from index `i` on.
pub open spec fn concat_groups(groups: Seq<Seq<Point>>, i: int) -> Seq<Point>
    decreases groups.len() - i,
{
    if i < 0 || i >= groups.len() {
        Seq::empty()
    } else {
        groups[i] + concat_groups(groups, i + 1)
    }
}

/// The concatenation of the groups from `i` on is the point array from
/// group `i`'s start offset to the end.
proof fn lemma_concat_groups_from(
    parts: Seq<i32>,
    points: Seq<Point>,
    groups: Seq<Seq<Point>>,
    i: int,
)
    requires
        parts_valid(parts, points.len() as int),
        groups_match(parts, points, groups),
        0 <= i <= groups.len(),
    ensures
        concat_groups(groups, i) == points.subrange(
            if i < parts.len() {
                parts[i] as int
            } else {
                points.len() as int
            },
            points.len() as int,
        ),
    decreases groups.len() - i,
{
    let n = points.len() as int;
    if i == groups.len() {
        assert(concat_groups(groups, i) =~= points.subrange(n, n));
    } else {
        lemma_concat_groups_from(parts, points, groups, i + 1);
        let start = parts[i] as int;
        let mid = part_end(parts, n, i);
        assert(points.subrange(start, mid) + points.subrange(mid, n) =~= points.subrange(start, n));
    }
}

/// Part reconstruction accounts for every point exactly once, in their
/// original order: concatenating the reconstructed groups gives back
/// the flat point array.
pub proof fn lemma_split_parts_concat(parts: Seq<i32>, points: Seq<Point>, groups: Seq<Seq<Point>>)
    requires
        parts_valid(parts, points.len() as int),
        groups_match(parts, points, groups),
    ensures
        concat_groups(groups, 0) == points,
    decreases groups.len(),
{
    lemma_concat_groups_from(parts, points, groups, 0);
    assert(points.subrange(0, points.len() as int) =~= points);
}

/// Copy a point array.
fn copy_points(v: &Vec<Point>) -> (r: Vec<Point>)
    ensures
        r@ == v@,
{
    let mut r: Vec<Point> = Vec::new();
    let n = v.len();
    for i in 0..n
        invariant
            n == v@.len(),
            r@.len() == i,
            forall|j: int| 0 <= j < i ==> r@[j] == v@[j],
        {
        r.push(v[i]);
    }
    proof {
        assert(r@ =~= v@);
    }
    r
}

/// Cut a flat point array into its parts: group `i` runs from offset
/// `i` to offset `i + 1`, and the final group to the end. Offsets that
/// do not account for every point exactly once fail with
/// `PartReconstructionMismatch` — never a silent truncation or padding.
#[verifier::rlimit(100)]
pub fn split_parts(parts: &Vec<i32>, points: &Vec<Point>) -> (r: Result<Vec<Vec<Point>>, Error>)
    ensures
        r is Ok <==> parts_valid(parts@, points@.len() as int),
        r matches Ok(groups) ==> {
            &&& groups_match(parts@, points@, groups@.map_values(|g: Vec<Point>| g@))
            &&& concat_groups(groups@.map_values(|g: Vec<Point>| g@), 0) == points@
        },
        r is Err ==> r == Err::<Vec<Vec<Point>>, Error>(
            Error::PartReconstructionMismatch {
                num_parts: parts@.len() as usize,
                num_points: points@.len() as usize,
            },
        ),
{
    let n = points.len();
    let p_count = parts.len();
    if p_count == 0 {
        return Err(Error::PartReconstructionMismatch { num_parts: p_count, num_points: n });
    }
    if parts[0] != 0 {
        return Err(Error::PartReconstructionMismatch { num_parts: p_count, num_points: n });
    }
    for i in 0..p_count
        invariant
            n == points@.len(),
            p_count == parts@.len(),
            forall|j: int| 0 <= j < i ==> 0 <= #[trigger] parts@[j] <= n,
            forall|j: int| 0 <= j < i - 1 ==> #[trigger] parts@[j] <= parts@[j + 1],
        {
        if parts[i] < 0 || parts[i] as usize > n {
            return Err(Error::PartReconstructionMismatch { num_parts: p_count, num_points: n });
        }
        if i > 0 && parts[i - 1] > parts[i] {
            return Err(Error::PartReconstructionMismatch { num_parts: p_count, num_points: n });
        }
    }
    let mut groups: Vec<Vec<Point>> = Vec::new();
    for i in 0..p_count
        invariant
            n == points@.len(),
            p_count == parts@.len(),
            parts_valid(parts@, n as int),
            groups@.len() == i,
            forall|k: int|
                0 <= k < i ==> (#[trigger] groups@[k])@ == points@.subrange(
                    parts@[k] as int,
                    part_end(parts@, n as int, k),
                ),
        {
        let start = parts[i] as usize;
        let end: usize = if i + 1 < p_count {
            parts[i + 1] as usize
        } else {
            n
        };
        let mut g: Vec<Point> = Vec::new();
        for j in start..end
            invariant
                n == points@.len(),
                start <= end <= n,
                g@.len() == j - start,
                forall|k: int| start <= k < j ==> g@[k - start] == points@[k],
            {
            g.push(points[j]);
        }
        proof {
            assert(g@ =~= points@.subrange(parts@[i as int] as int, part_end(parts@, n as int, i as int)));
        }
        groups.push(g);
    }
    proof {
        assert(groups_match(parts@, points@, groups@.map_values(|g: Vec<Point>| g@)));
        lemma_split_parts_concat(parts@, points@, groups@.map_values(|g: Vec<Point>| g@));
    }
    Ok(groups)
}


/// Whether the positional join can map this shape to a domain object.
pub open spec fn shape_joinable(shape: Shape) -> bool {
    match shape {
        Shape::Point(_) => true,
        Shape::PolyLine(pl) => pl.parts@.len() <= 1,
        Shape::Polygon(pg) => parts_valid(pg.parts@, pg.points@.len() as int),
        _ => false,
    }
}

/// The error the join raises on a shape it cannot map. The point arm is
/// never reached: points always map.
pub open spec fn join_error(shape: Shape) -> Error {
    match shape {
        Shape::Null => Error::UnsupportedShapeType { code: 0 },
        Shape::Point(_) => Error::UnsupportedShapeType { code: 1 },
        Shape::PolyLine(pl) => Error::MultiPartLineUnsupported {
            num_parts: pl.parts@.len() as usize,
        },
        Shape::Polygon(pg) => Error::PartReconstructionMismatch {
            num_parts: pg.parts@.len() as usize,
            num_points: pg.points@.len() as usize,
        },
        Shape::MultiPoint(_) => Error::UnsupportedShapeType { code: 8 },
        Shape::PointZ(_) => Error::UnsupportedShapeType { code: 11 },
        Shape::PolylineZ(_) => Error::UnsupportedShapeType { code: 13 },
        Shape::PolygonZ(_) => Error::UnsupportedShapeType { code: 15 },
        Shape::MultiPointZ(_) => Error::UnsupportedShapeType { code: 18 },
        Shape::PointM(_) => Error::UnsupportedShapeType { code: 21 },
        Shape::PolylineM(_) => Error::UnsupportedShapeType { code: 23 },
        Shape::PolygonM(_) => Error::UnsupportedShapeType { code: 25 },
        Shape::MultiPointM(_) => Error::UnsupportedShapeType { code: 28 },
        Shape::MultiPatch(_) => Error::UnsupportedShapeType { code: 31 },
    }
}

/// The domain geometry the join produces for a shape: a point as-is, a
/// single-part poly-line as one open line, a polygon as its
/// reconstructed rings in original point order.
pub open spec fn variant_matches(shape: Shape, v: Variant) -> bool {
    match shape {
        Shape::Point(p) => v matches Variant::Point(q) && q == p,
        Shape::PolyLine(pl) => v matches Variant::Line(pts) && pts@ == pl.points@,
        Shape::Polygon(pg) => v matches Variant::Polygon(rings) && groups_match(
            pg.parts@,
            pg.points@,
            rings@.map_values(|g: Vec<Point>| g@),
        ),
        _ => false,
    }
}

/// `i` is the first field whose name matches the key.
pub open spec fn spec_first_match(fields: Seq<FieldDescriptor>, key: Seq<char>, i: int) -> bool {
    &&& 0 <= i < fields.len()
    &&& keys_match(fields[i].name@, key)
    &&& forall|j: int| 0 <= j < i ==> !keys_match((#[trigger] fields[j]).name@, key)
}

/// No field's name matches the key.
pub open spec fn spec_no_match(fields: Seq<FieldDescriptor>, key: Seq<char>) -> bool {
    forall|j: int| 0 <= j < fields.len() ==> !keys_match((#[trigger] fields[j]).name@, key)
}

/// A name is absent — not an empty string — when the attribute text is
/// all whitespace; otherwise it is the trimmed text.
pub open spec fn name_of_entry(entry: Seq<char>, name: Option<String>) -> bool {
    if trim_chars(entry).len() == 0 {
        name is None
    } else {
        name matches Some(t) && t@ == trim_chars(entry)
    }
}

/// One joined object matches its geometry record and attribute row:
/// the mapped geometry, the name from the name field, the
/// classification carried verbatim from the class field.
pub open spec fn object_matches(
    srec: ShpRecord,
    drec: DbaseRecord,
    fields: Seq<FieldDescriptor>,
    obj: Object,
) -> bool {
    &&& variant_matches(srec.shape, obj.variant)
    &&& (spec_no_match(fields, "name"@) ==> obj.name is None)
    &&& (forall|j: int|
        spec_first_match(fields, "name"@, j) ==> name_of_entry(
            (#[trigger] drec.entries@[j])@,
            obj.name,
        ))
    &&& (spec_no_match(fields, "fclass"@) ==> obj.fclass@ == Seq::<char>::empty())
    &&& (forall|j: int|
        spec_first_match(fields, "fclass"@, j) ==> obj.fclass@ == (#[trigger] drec.entries@[j])@)
}

/// The subsequence of objects that carry a name, in order.
pub open spec fn named_only(s: Seq<Object>) -> Seq<Object>
    decreases s.len(),
{
    if s.len() == 0 {
        s
    } else {
        let rest = named_only(s.drop_last());
        if s.last().name is Some {
            rest.push(s.last())
        } else {
            rest
        }
    }
}

/// A decoded shape file and attribute file pair, positionally aligned
/// and ready to join.
#[derive(Debug)]
pub struct Spatial {
    shp: ShpFile,
    dbf: DbaseFile,
}

impl Spatial {
    /// The shape file this pair holds.
    pub closed spec fn shp_file(&self) -> ShpFile {
        self.shp
    }

    /// The attribute file this pair holds.
    pub closed spec fn dbf_file(&self) -> DbaseFile {
        self.dbf
    }

    /// Pair a decoded shape file with a decoded attribute file. The
    /// formats carry no foreign key, so positional alignment is the
    /// only join available: unequal record counts are unrecoverable.
    pub fn new(shp: ShpFile, dbf: DbaseFile) -> (r: Result<Spatial, Error>)
        ensures
            r is Ok <==> shp.records@.len() == dbf.records@.len(),
            r matches Ok(sp) ==> sp.shp_file() == shp && sp.dbf_file() == dbf,
            r is Err ==> r == Err::<Spatial, Error>(
                Error::RecordCountMismatch {
                    shp_records: shp.records@.len() as usize,
                    dbf_records: dbf.records@.len() as usize,
                },
            ),
    {
        let shp_num = shp.records.len();
        let dbf_num = dbf.records.len();
        if shp_num != dbf_num {
            return Err(
                Error::RecordCountMismatch { shp_records: shp_num, dbf_records: dbf_num },
            );
        }
        Ok(Spatial { shp, dbf })
    }

    /// How many record pairs this join holds.
    pub fn num_records(&self) -> (r: usize)
        ensures
            r == self.shp_file().records@.len(),
    {
        self.shp.records.len()
    }

    /// Join every geometry record with its attribute row, in input
    /// order. The name comes from the field named `name`, the
    /// classification from the field named `fclass`; a missing name
    /// field leaves every name absent, a missing class field leaves the
    /// classification empty.
    #[verifier::rlimit(100)]
    pub fn into_objects(self) -> (r: Result<Vec<Object>, Error>)
        requires
            self.dbf_file().wf(),
            self.shp_file().records@.len() == self.dbf_file().records@.len(),
        ensures
            r is Ok <==> forall|i: int|
                0 <= i < self.shp_file().records@.len() ==> shape_joinable(
                    (#[trigger] self.shp_file().records@[i]).shape,
                ),
            r matches Ok(objs) ==> {
                &&& objs@.len() == self.shp_file().records@.len()
                &&& forall|i: int|
                    0 <= i < objs@.len() ==> object_matches(
                        self.shp_file().records@[i],
                        self.dbf_file().records@[i],
                        self.dbf_file().header.fields@,
                        #[trigger] objs@[i],
                    )
            },
            forall|i: int|
                ({
                    &&& 0 <= i < self.shp_file().records@.len()
                    &&& (forall|j: int|
                        0 <= j < i ==> shape_joinable(
                            (#[trigger] self.shp_file().records@[j]).shape,
                        ))
                    &&& !shape_joinable((#[trigger] self.shp_file().records@[i]).shape)
                }) ==> r == Err::<Vec<Object>, Error>(join_error(self.shp_file().records@[i].shape)),
    {
        let name_idx = self.dbf.header.index_of("name");
        let fclass_idx = self.dbf.header.index_of("fclass");
        let n = self.shp.records.len();
        let mut objs: Vec<Object> = Vec::new();
        for i in 0..n
            invariant
                n == self.shp_file().records@.len(),
                self.dbf_file().wf(),
                self.shp_file().records@.len() == self.dbf_file().records@.len(),
                name_idx matches Some(j) ==> spec_first_match(
                    self.dbf_file().header.fields@,
                    "name"@,
                    j as int,
                ),
                name_idx is None ==> spec_no_match(self.dbf_file().header.fields@, "name"@),
                fclass_idx matches Some(j) ==> spec_first_match(
                    self.dbf_file().header.fields@,
                    "fclass"@,
                    j as int,
                ),
                fclass_idx is None ==> spec_no_match(self.dbf_file().header.fields@, "fclass"@),
                objs@.len() == i,
                forall|j: int|
                    0 <= j < i ==> shape_joinable((#[trigger] self.shp_file().records@[j]).shape),
                forall|j: int|
                    0 <= j < i ==> object_matches(
                        self.shp_file().records@[j],
                        self.dbf_file().records@[j],
                        self.dbf_file().header.fields@,
                        #[trigger] objs@[j],
                    ),
            {
            let srec = &self.shp.records[i];
            let variant = match &srec.shape {
                Shape::Point(p) => Variant::Point(*p),
                Shape::PolyLine(pl) => {
                    if pl.parts.len() > 1 {
                        proof {
                            assert(!shape_joinable(self.shp_file().records@[i as int].shape));
                        }
                        return Err(
                            Error::MultiPartLineUnsupported { num_parts: pl.parts.len() },
                        );
                    }
                    Variant::Line(copy_points(&pl.points))
                },
                Shape::Polygon(pg) => {
                    match split_parts(&pg.parts, &pg.points) {
                        Ok(rings) => Variant::Polygon(rings),
                        Err(e) => {
                            proof {
                                assert(!shape_joinable(self.shp_file().records@[i as int].shape));
                            }
                            return Err(e);
                        },
                    }
                },
                Shape::Null => {
                    return Err(Error::UnsupportedShapeType { code: 0 });
                },
                Shape::MultiPoint(_) => {
                    return Err(Error::UnsupportedShapeType { code: 8 });
                },
                Shape::PointZ(_) => {
                    return Err(Error::UnsupportedShapeType { code: 11 });
                },
                Shape::PolylineZ(_) => {
                    return Err(Error::UnsupportedShapeType { code: 13 });
                },
                Shape::PolygonZ(_) => {
                    return Err(Error::UnsupportedShapeType { code: 15 });
                },
                Shape::MultiPointZ(_) => {
                    return Err(Error::UnsupportedShapeType { code: 18 });
                },
                Shape::PointM(_) => {
                    return Err(Error::UnsupportedShapeType { code: 21 });
                },
                Shape::PolylineM(_) => {
                    return Err(Error::UnsupportedShapeType { code: 23 });
                },
                Shape::PolygonM(_) => {
                    return Err(Error::UnsupportedShapeType { code: 25 });
                },
                Shape::MultiPointM(_) => {
                    return Err(Error::UnsupportedShapeType { code: 28 });
                },
                Shape::MultiPatch(_) => {
                    return Err(Error::UnsupportedShapeType { code: 31 });
                },
            };
            let name: Option<String> = match name_idx {
                Some(j) => trim_to_option(self.dbf.records[i].entries[j].as_str()),
                None => None,
            };
            let fclass: String = match fclass_idx {
                Some(j) => self.dbf.records[i].entries[j].clone(),
                None => String::new(),
            };
            objs.push(Object { name, fclass, variant });
        }
        Ok(objs)
    }

    /// Join as `into_objects`, then keep only the objects that carry a
    /// name, in order.
    pub fn into_named_objects(self) -> (r: Result<Vec<Object>, Error>)
        requires
            self.dbf_file().wf(),
            self.shp_file().records@.len() == self.dbf_file().records@.len(),
        ensures
            r is Ok <==> forall|i: int|
                0 <= i < self.shp_file().records@.len() ==> shape_joinable(
                    (#[trigger] self.shp_file().records@[i]).shape,
                ),
            r matches Ok(out) ==> exists|full: Seq<Object>|
                #![trigger full.len()]
                {
                    &&& full.len() == self.shp_file().records@.len()
                    &&& (forall|i: int|
                        0 <= i < full.len() ==> object_matches(
                            self.shp_file().records@[i],
                            self.dbf_file().records@[i],
                            self.dbf_file().header.fields@,
                            #[trigger] full[i],
                        ))
                    &&& out@ == named_only(full)
                },
    {
        let ghost shp_records = self.shp_file().records@;
        let ghost dbf_records = self.dbf_file().records@;
        let ghost fields = self.dbf_file().header.fields@;
        let mut objs = match self.into_objects() {
            Ok(objs) => objs,
            Err(e) => {
                return Err(e);
            },
        };
        let ghost full = objs@;
        let mut out: Vec<Object> = Vec::new();
        let ghost k: int = 0;
        loop
            invariant
                0 <= k <= full.len(),
                objs@ =~= full.subrange(k, full.len() as int),
                out@ == named_only(full.take(k)),
            ensures
                out@ == named_only(full),
            decreases full.len() - k,
        {
            if objs.len() == 0 {
                proof {
                    assert(full.take(k) =~= full);
                }
                break;
            }
            let o = objs.remove(0);
            proof {
                assert(o == full[k]);
                assert(full.take(k + 1).drop_last() =~= full.take(k));
                assert(full.take(k + 1).last() == full[k]);
            }
            if o.name.is_some() {
                out.push(o);
            }
            proof {
                k = k + 1;
            }
            proof {
                assert(objs@ =~= full.subrange(k, full.len() as int));
            }
        }
        Ok(out)
    }
}

} // verus!
