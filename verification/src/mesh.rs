//! The shapes of rooms and targets before they are given a size.
//!
//! A flat-sided shape is a list of triangles whose corners have the coordinates
//! -1, 0 or 1; the caller scales them by the shape's radius. A round shape is a
//! grid of bands, cut into triangles here and bent into place by the caller.

use vstd::prelude::*;
use crate::scenario::RoomType;

verus! {

/// A corner of a flat-sided shape, in units of the shape's radius.
#[derive(Clone, Copy, Debug, PartialEq, Eq, Structural)]
pub struct Corner {
    pub x: i8,
    pub y: i8,
    pub z: i8,
}

/// A triangle of a flat-sided shape, its corners in drawing order.
#[derive(Clone, Copy, Debug, PartialEq, Eq, Structural)]
pub struct UnitTriangle {
    pub a: Corner,
    pub b: Corner,
    pub c: Corner,
}

/// The triangle with corners `(ax, ay, az)`, `(bx, by, bz)` and `(cx, cy, cz)`.
pub open spec fn face(
    ax: int,
    ay: int,
    az: int,
    bx: int,
    by: int,
    bz: int,
    cx: int,
    cy: int,
    cz: int,
) -> UnitTriangle {
    UnitTriangle {
        a: Corner { x: ax as i8, y: ay as i8, z: az as i8 },
        b: Corner { x: bx as i8, y: by as i8, z: bz as i8 },
        c: Corner { x: cx as i8, y: cy as i8, z: cz as i8 },
    }
}

fn make_face(ax: i8, ay: i8, az: i8, bx: i8, by: i8, bz: i8, cx: i8, cy: i8, cz: i8) -> (t:
    UnitTriangle)
    ensures
        t == face(
            ax as int,
            ay as int,
            az as int,
            bx as int,
            by as int,
            bz as int,
            cx as int,
            cy as int,
            cz as int,
        ),
{
    UnitTriangle {
        a: Corner { x: ax, y: ay, z: az },
        b: Corner { x: bx, y: by, z: bz },
        c: Corner { x: cx, y: cy, z: cz },
    }
}

/// The normal of a triangle: the cross product of its side from the first corner
/// to the second with its side from the first corner to the third.
pub open spec fn normal_of(t: UnitTriangle) -> (int, int, int) {
    let ux = t.b.x - t.a.x;
    let uy = t.b.y - t.a.y;
    let uz = t.b.z - t.a.z;
    let vx = t.c.x - t.a.x;
    let vy = t.c.y - t.a.y;
    let vz = t.c.z - t.a.z;
    (uy * vz - uz * vy, uz * vx - ux * vz, ux * vy - uy * vx)
}

/// How a triangle scaled by `radius` is turned to a viewer at `(ex, ey, ez)`: the
/// product of its normal with the way from the viewer to its first corner. A
/// triangle is drawn unless this is positive.
pub open spec fn turn(t: UnitTriangle, radius: int, ex: int, ey: int, ez: int) -> int {
    let n = normal_of(t);
    n.0 * (radius * t.a.x - ex) + n.1 * (radius * t.a.y - ey) + n.2 * (radius * t.a.z - ez)
}

/// Whether each coordinate of the corner is one radius away from the origin.
pub open spec fn is_cube_corner(c: Corner) -> bool {
    (c.x == 1 || c.x == -1) && (c.y == 1 || c.y == -1) && (c.z == 1 || c.z == -1)
}

/// Whether the viewer at `(ex, ey, ez)` stands strictly inside the cube of the
/// given radius round the origin.
pub open spec fn inside_cube(radius: int, ex: int, ey: int, ez: int) -> bool {
    -radius < ex < radius && -radius < ey < radius && -radius < ez < radius
}

/// The six walls of the cube round the origin, two triangles each, seen from inside.
pub open spec fn cube_room_faces() -> Seq<UnitTriangle> {
    seq![
        face(-1, -1, -1, 1, 1, -1, -1, 1, -1),
        face(-1, -1, -1, 1, -1, -1, 1, 1, -1),
        face(1, -1, 1, -1, 1, 1, 1, 1, 1),
        face(1, -1, 1, -1, -1, 1, -1, 1, 1),
        face(1, -1, -1, 1, 1, 1, 1, 1, -1),
        face(1, -1, -1, 1, -1, 1, 1, 1, 1),
        face(-1, -1, 1, -1, 1, -1, -1, 1, 1),
        face(-1, -1, 1, -1, -1, -1, -1, 1, -1),
        face(-1, 1, -1, 1, 1, 1, -1, 1, 1),
        face(-1, 1, -1, 1, 1, -1, 1, 1, 1),
        face(1, -1, 1, -1, -1, -1, -1, -1, 1),
        face(1, -1, 1, 1, -1, -1, -1, -1, -1),
    ]
}

/// One wall in front of the player.
pub open spec fn wall_room_faces() -> Seq<UnitTriangle> {
    seq![face(1, -1, 1, -1, 1, 1, 1, 1, 1), face(1, -1, 1, -1, -1, 1, -1, 1, 1)]
}

/// A room that narrows to an edge behind the player: the wall in front, floor and
/// ceiling, and two side walls that meet behind.
pub open spec fn cone_room_faces() -> Seq<UnitTriangle> {
    seq![
        face(1, -1, 1, -1, 1, 1, 1, 1, 1),
        face(1, -1, 1, -1, -1, 1, -1, 1, 1),
        face(1, -1, 1, 0, -1, -1, -1, -1, 1),
        face(0, 1, -1, 1, 1, 1, -1, 1, 1),
        face(0, -1, -1, 1, 1, 1, 0, 1, -1),
        face(0, -1, -1, 1, -1, 1, 1, 1, 1),
        face(-1, -1, 1, 0, 1, -1, -1, 1, 1),
        face(-1, -1, 1, 0, -1, -1, 0, 1, -1),
    ]
}

/// The six sides of a block, two triangles each, seen from outside.
pub open spec fn block_faces() -> Seq<UnitTriangle> {
    seq![
        face(-1, -1, -1, -1, 1, -1, 1, 1, -1),
        face(-1, -1, -1, 1, 1, -1, 1, -1, -1),
        face(1, -1, -1, 1, 1, -1, 1, 1, 1),
        face(1, -1, -1, 1, 1, 1, 1, -1, 1),
        face(1, -1, 1, 1, 1, 1, -1, 1, 1),
        face(1, -1, 1, -1, 1, 1, -1, -1, 1),
        face(-1, -1, 1, -1, 1, 1, -1, 1, -1),
        face(-1, -1, 1, -1, 1, -1, -1, -1, -1),
        face(-1, 1, -1, -1, 1, 1, 1, 1, 1),
        face(-1, 1, -1, 1, 1, 1, 1, 1, -1),
        face(1, -1, 1, -1, -1, 1, -1, -1, -1),
        face(1, -1, 1, -1, -1, -1, 1, -1, -1),
    ]
}

/// The flat square target: the side of the block that is turned to the front.
pub open spec fn square_faces() -> Seq<UnitTriangle> {
    seq![face(-1, -1, -1, -1, 1, -1, 1, 1, -1), face(-1, -1, -1, 1, 1, -1, 1, -1, -1)]
}

/// The triangles of a room as lists of plain values: corners in units of the
/// radius where the walls are flat and lie along the axes, corners named by their
/// post where the walls stand in a ring.
pub enum RoomFaces {
    Flat(Seq<UnitTriangle>),
    Ring(Seq<RingTriangle>),
}

impl RoomFaces {
    /// The number of triangles.
    pub open spec fn count(self) -> nat {
        match self {
            RoomFaces::Flat(faces) => faces.len(),
            RoomFaces::Ring(faces) => faces.len(),
        }
    }
}

/// The triangles of each kind of room. The octagon is the ring-shaped room of
/// `octagon_room`, with `OCTAGON_SIDES` walls.
pub open spec fn room_faces(room_type: RoomType) -> RoomFaces {
    match room_type {
        RoomType::Cube => RoomFaces::Flat(cube_room_faces()),
        RoomType::Wall => RoomFaces::Flat(wall_room_faces()),
        RoomType::Cone => RoomFaces::Flat(cone_room_faces()),
        RoomType::Octagon => RoomFaces::Ring(ring_faces(OCTAGON_SIDES as int)),
    }
}

/// The number of triangles of each kind of room.
pub open spec fn room_size(room_type: RoomType) -> nat {
    match room_type {
        RoomType::Cube => 12,
        RoomType::Wall => 2,
        RoomType::Cone => 8,
        RoomType::Octagon => 32,
    }
}

/// The triangles of a room.
#[derive(Debug)]
pub enum RoomMesh {
    /// Flat walls along the axes, their corners in units of the room's radius.
    Flat(Vec<UnitTriangle>),
    /// Walls in a ring, their corners named by the ring's posts.
    Ring(Vec<RingTriangle>),
}

impl View for RoomMesh {
    type V = RoomFaces;

    open spec fn view(&self) -> RoomFaces {
        match self {
            RoomMesh::Flat(mesh) => RoomFaces::Flat(mesh@),
            RoomMesh::Ring(mesh) => RoomFaces::Ring(mesh@),
        }
    }
}

impl RoomMesh {
    /// The number of triangles.
    pub fn triangle_count(&self) -> (n: usize)
        ensures
            n == self@.count(),
    {
        match self {
            RoomMesh::Flat(mesh) => mesh.len(),
            RoomMesh::Ring(mesh) => mesh.len(),
        }
    }
}

/// The cube round the origin.
pub fn cube_room() -> (mesh: Vec<UnitTriangle>)
    ensures
        mesh@ == cube_room_faces(),
{
    let mut mesh: Vec<UnitTriangle> = Vec::new();
    // SOUTH (z = -1)
    mesh.push(make_face(-1, -1, -1, 1, 1, -1, -1, 1, -1));
    mesh.push(make_face(-1, -1, -1, 1, -1, -1, 1, 1, -1));
    // NORTH (z = +1)
    mesh.push(make_face(1, -1, 1, -1, 1, 1, 1, 1, 1));
    mesh.push(make_face(1, -1, 1, -1, -1, 1, -1, 1, 1));
    // EAST (x = +1)
    mesh.push(make_face(1, -1, -1, 1, 1, 1, 1, 1, -1));
    mesh.push(make_face(1, -1, -1, 1, -1, 1, 1, 1, 1));
    // WEST (x = -1)
    mesh.push(make_face(-1, -1, 1, -1, 1, -1, -1, 1, 1));
    mesh.push(make_face(-1, -1, 1, -1, -1, -1, -1, 1, -1));
    // TOP (y = +1)
    mesh.push(make_face(-1, 1, -1, 1, 1, 1, -1, 1, 1));
    mesh.push(make_face(-1, 1, -1, 1, 1, -1, 1, 1, 1));
    // BOTTOM (y = -1)
    mesh.push(make_face(1, -1, 1, -1, -1, -1, -1, -1, 1));
    mesh.push(make_face(1, -1, 1, 1, -1, -1, -1, -1, -1));
    assert(mesh@ =~= cube_room_faces());
    mesh
}

/// One wall in front of the player.
pub fn wall_room() -> (mesh: Vec<UnitTriangle>)
    ensures
        mesh@ == wall_room_faces(),
{
    let mut mesh: Vec<UnitTriangle> = Vec::new();
    mesh.push(make_face(1, -1, 1, -1, 1, 1, 1, 1, 1));
    mesh.push(make_face(1, -1, 1, -1, -1, 1, -1, 1, 1));
    assert(mesh@ =~= wall_room_faces());
    mesh
}

/// The room that narrows to an edge behind the player.
pub fn cone_room() -> (mesh: Vec<UnitTriangle>)
    ensures
        mesh@ == cone_room_faces(),
{
    let mut mesh: Vec<UnitTriangle> = Vec::new();
    // NORTH (z = +1)
    mesh.push(make_face(1, -1, 1, -1, 1, 1, 1, 1, 1));
    mesh.push(make_face(1, -1, 1, -1, -1, 1, -1, 1, 1));
    // BOTTOM (y = -1)
    mesh.push(make_face(1, -1, 1, 0, -1, -1, -1, -1, 1));
    // TOP (y = +1)
    mesh.push(make_face(0, 1, -1, 1, 1, 1, -1, 1, 1));
    // EAST
    mesh.push(make_face(0, -1, -1, 1, 1, 1, 0, 1, -1));
    mesh.push(make_face(0, -1, -1, 1, -1, 1, 1, 1, 1));
    // WEST
    mesh.push(make_face(-1, -1, 1, 0, 1, -1, -1, 1, 1));
    mesh.push(make_face(-1, -1, 1, 0, -1, -1, 0, 1, -1));
    assert(mesh@ =~= cone_room_faces());
    mesh
}

/// The block, a target with six square sides.
pub fn block() -> (mesh: Vec<UnitTriangle>)
    ensures
        mesh@ == block_faces(),
{
    let mut mesh: Vec<UnitTriangle> = Vec::new();
    mesh.push(make_face(-1, -1, -1, -1, 1, -1, 1, 1, -1));
    mesh.push(make_face(-1, -1, -1, 1, 1, -1, 1, -1, -1));
    mesh.push(make_face(1, -1, -1, 1, 1, -1, 1, 1, 1));
    mesh.push(make_face(1, -1, -1, 1, 1, 1, 1, -1, 1));
    mesh.push(make_face(1, -1, 1, 1, 1, 1, -1, 1, 1));
    mesh.push(make_face(1, -1, 1, -1, 1, 1, -1, -1, 1));
    mesh.push(make_face(-1, -1, 1, -1, 1, 1, -1, 1, -1));
    mesh.push(make_face(-1, -1, 1, -1, 1, -1, -1, -1, -1));
    mesh.push(make_face(-1, 1, -1, -1, 1, 1, 1, 1, 1));
    mesh.push(make_face(-1, 1, -1, 1, 1, 1, 1, 1, -1));
    mesh.push(make_face(1, -1, 1, -1, -1, 1, -1, -1, -1));
    mesh.push(make_face(1, -1, 1, -1, -1, -1, 1, -1, -1));
    assert(mesh@ =~= block_faces());
    mesh
}

/// The flat square target, two triangles that share a diagonal.
pub fn square() -> (mesh: Vec<UnitTriangle>)
    ensures
        mesh@ == square_faces(),
        mesh@ == block_faces().take(2),
{
    let mut mesh: Vec<UnitTriangle> = Vec::new();
    mesh.push(make_face(-1, -1, -1, -1, 1, -1, 1, 1, -1));
    mesh.push(make_face(-1, -1, -1, 1, 1, -1, 1, -1, -1));
    assert(mesh@ =~= square_faces());
    assert(mesh@ =~= block_faces().take(2));
    mesh
}

/// The triangles of a room of the given kind: twelve for the cube, two for the
/// wall, eight for the narrowing room, thirty-two for the octagon.
pub fn create_room(room_type: RoomType) -> (mesh: RoomMesh)
    ensures
        mesh@ == room_faces(room_type),
        mesh@.count() == room_size(room_type),
{
    match room_type {
        RoomType::Cube => RoomMesh::Flat(cube_room()),
        RoomType::Wall => RoomMesh::Flat(wall_room()),
        RoomType::Cone => RoomMesh::Flat(cone_room()),
        RoomType::Octagon => RoomMesh::Ring(octagon_room()),
    }
}

/// Every corner of the cube room lies at a corner of the cube: each of its
/// coordinates is the radius or its opposite.
pub proof fn lemma_cube_room_corners(k: int)
    requires
        0 <= k < cube_room_faces().len(),
    ensures
        is_cube_corner(cube_room_faces()[k].a),
        is_cube_corner(cube_room_faces()[k].b),
        is_cube_corner(cube_room_faces()[k].c),
{
}

/// The turn of a triangle with corners at -1, 0 or 1, written out.
proof fn lemma_turn_of(
    ax: int,
    ay: int,
    az: int,
    bx: int,
    by: int,
    bz: int,
    cx: int,
    cy: int,
    cz: int,
    radius: int,
    ex: int,
    ey: int,
    ez: int,
)
    requires
        -1 <= ax <= 1 && -1 <= ay <= 1 && -1 <= az <= 1,
        -1 <= bx <= 1 && -1 <= by <= 1 && -1 <= bz <= 1,
        -1 <= cx <= 1 && -1 <= cy <= 1 && -1 <= cz <= 1,
    ensures
        turn(face(ax, ay, az, bx, by, bz, cx, cy, cz), radius, ex, ey, ez) == ((by - ay) * (cz - az)
            - (bz - az) * (cy - ay)) * (radius * ax - ex) + ((bz - az) * (cx - ax) - (bx - ax) * (cz
            - az)) * (radius * ay - ey) + ((bx - ax) * (cy - ay) - (by - ay) * (cx - ax)) * (radius
            * az - ez),
{
}

/// A viewer inside the cube sees every wall of it: no triangle of the cube room
/// is turned away, whatever its size.
pub proof fn lemma_cube_room_seen_from_inside(radius: int, ex: int, ey: int, ez: int, k: int)
    requires
        radius > 0,
        inside_cube(radius, ex, ey, ez),
        0 <= k < cube_room_faces().len(),
    ensures
        turn(cube_room_faces()[k], radius, ex, ey, ez) < 0,
{
    if k == 0 {
        lemma_turn_of(-1, -1, -1, 1, 1, -1, -1, 1, -1, radius, ex, ey, ez);
        assert(((1int - (-1int)) * ((-1int) - (-1int)) - ((-1int) - (-1int)) * (1int - (-1int))) * (radius * (-1int) - ex) + (((-1int) - (-1int)) * ((-1int) - (-1int)) - (1int - (-1int)) * ((-1int) - (-1int))) * (radius * (-1int) - ey) + ((1int - (-1int)) * (1int - (-1int)) - (1int - (-1int)) * ((-1int) - (-1int))) * (radius * (-1int) - ez) < 0) by (nonlinear_arith)
            requires
                radius > 0,
                -radius < ex < radius,
                -radius < ey < radius,
                -radius < ez < radius,
        ;
    } else if k == 1 {
        lemma_turn_of(-1, -1, -1, 1, -1, -1, 1, 1, -1, radius, ex, ey, ez);
        assert((((-1int) - (-1int)) * ((-1int) - (-1int)) - ((-1int) - (-1int)) * (1int - (-1int))) * (radius * (-1int) - ex) + (((-1int) - (-1int)) * (1int - (-1int)) - (1int - (-1int)) * ((-1int) - (-1int))) * (radius * (-1int) - ey) + ((1int - (-1int)) * (1int - (-1int)) - ((-1int) - (-1int)) * (1int - (-1int))) * (radius * (-1int) - ez) < 0) by (nonlinear_arith)
            requires
                radius > 0,
                -radius < ex < radius,
                -radius < ey < radius,
                -radius < ez < radius,
        ;
    } else if k == 2 {
        lemma_turn_of(1, -1, 1, -1, 1, 1, 1, 1, 1, radius, ex, ey, ez);
        assert(((1int - (-1int)) * (1int - 1int) - (1int - 1int) * (1int - (-1int))) * (radius * 1int - ex) + ((1int - 1int) * (1int - 1int) - ((-1int) - 1int) * (1int - 1int)) * (radius * (-1int) - ey) + (((-1int) - 1int) * (1int - (-1int)) - (1int - (-1int)) * (1int - 1int)) * (radius * 1int - ez) < 0) by (nonlinear_arith)
            requires
                radius > 0,
                -radius < ex < radius,
                -radius < ey < radius,
                -radius < ez < radius,
        ;
    } else if k == 3 {
        lemma_turn_of(1, -1, 1, -1, -1, 1, -1, 1, 1, radius, ex, ey, ez);
        assert((((-1int) - (-1int)) * (1int - 1int) - (1int - 1int) * (1int - (-1int))) * (radius * 1int - ex) + ((1int - 1int) * ((-1int) - 1int) - ((-1int) - 1int) * (1int - 1int)) * (radius * (-1int) - ey) + (((-1int) - 1int) * (1int - (-1int)) - ((-1int) - (-1int)) * ((-1int) - 1int)) * (radius * 1int - ez) < 0) by (nonlinear_arith)
            requires
                radius > 0,
                -radius < ex < radius,
                -radius < ey < radius,
                -radius < ez < radius,
        ;
    } else if k == 4 {
        lemma_turn_of(1, -1, -1, 1, 1, 1, 1, 1, -1, radius, ex, ey, ez);
        assert(((1int - (-1int)) * ((-1int) - (-1int)) - (1int - (-1int)) * (1int - (-1int))) * (radius * 1int - ex) + ((1int - (-1int)) * (1int - 1int) - (1int - 1int) * ((-1int) - (-1int))) * (radius * (-1int) - ey) + ((1int - 1int) * (1int - (-1int)) - (1int - (-1int)) * (1int - 1int)) * (radius * (-1int) - ez) < 0) by (nonlinear_arith)
            requires
                radius > 0,
                -radius < ex < radius,
                -radius < ey < radius,
                -radius < ez < radius,
        ;
    } else if k == 5 {
        lemma_turn_of(1, -1, -1, 1, -1, 1, 1, 1, 1, radius, ex, ey, ez);
        assert((((-1int) - (-1int)) * (1int - (-1int)) - (1int - (-1int)) * (1int - (-1int))) * (radius * 1int - ex) + ((1int - (-1int)) * (1int - 1int) - (1int - 1int) * (1int - (-1int))) * (radius * (-1int) - ey) + ((1int - 1int) * (1int - (-1int)) - ((-1int) - (-1int)) * (1int - 1int)) * (radius * (-1int) - ez) < 0) by (nonlinear_arith)
            requires
                radius > 0,
                -radius < ex < radius,
                -radius < ey < radius,
                -radius < ez < radius,
        ;
    } else if k == 6 {
        lemma_turn_of(-1, -1, 1, -1, 1, -1, -1, 1, 1, radius, ex, ey, ez);
        assert(((1int - (-1int)) * (1int - 1int) - ((-1int) - 1int) * (1int - (-1int))) * (radius * (-1int) - ex) + (((-1int) - 1int) * ((-1int) - (-1int)) - ((-1int) - (-1int)) * (1int - 1int)) * (radius * (-1int) - ey) + (((-1int) - (-1int)) * (1int - (-1int)) - (1int - (-1int)) * ((-1int) - (-1int))) * (radius * 1int - ez) < 0) by (nonlinear_arith)
            requires
                radius > 0,
                -radius < ex < radius,
                -radius < ey < radius,
                -radius < ez < radius,
        ;
    } else if k == 7 {
        lemma_turn_of(-1, -1, 1, -1, -1, -1, -1, 1, -1, radius, ex, ey, ez);
        assert((((-1int) - (-1int)) * ((-1int) - 1int) - ((-1int) - 1int) * (1int - (-1int))) * (radius * (-1int) - ex) + (((-1int) - 1int) * ((-1int) - (-1int)) - ((-1int) - (-1int)) * ((-1int) - 1int)) * (radius * (-1int) - ey) + (((-1int) - (-1int)) * (1int - (-1int)) - ((-1int) - (-1int)) * ((-1int) - (-1int))) * (radius * 1int - ez) < 0) by (nonlinear_arith)
            requires
                radius > 0,
                -radius < ex < radius,
                -radius < ey < radius,
                -radius < ez < radius,
        ;
    } else if k == 8 {
        lemma_turn_of(-1, 1, -1, 1, 1, 1, -1, 1, 1, radius, ex, ey, ez);
        assert(((1int - 1int) * (1int - (-1int)) - (1int - (-1int)) * (1int - 1int)) * (radius * (-1int) - ex) + ((1int - (-1int)) * ((-1int) - (-1int)) - (1int - (-1int)) * (1int - (-1int))) * (radius * 1int - ey) + ((1int - (-1int)) * (1int - 1int) - (1int - 1int) * ((-1int) - (-1int))) * (radius * (-1int) - ez) < 0) by (nonlinear_arith)
            requires
                radius > 0,
                -radius < ex < radius,
                -radius < ey < radius,
                -radius < ez < radius,
        ;
    } else if k == 9 {
        lemma_turn_of(-1, 1, -1, 1, 1, -1, 1, 1, 1, radius, ex, ey, ez);
        assert(((1int - 1int) * (1int - (-1int)) - ((-1int) - (-1int)) * (1int - 1int)) * (radius * (-1int) - ex) + (((-1int) - (-1int)) * (1int - (-1int)) - (1int - (-1int)) * (1int - (-1int))) * (radius * 1int - ey) + ((1int - (-1int)) * (1int - 1int) - (1int - 1int) * (1int - (-1int))) * (radius * (-1int) - ez) < 0) by (nonlinear_arith)
            requires
                radius > 0,
                -radius < ex < radius,
                -radius < ey < radius,
                -radius < ez < radius,
        ;
    } else if k == 10 {
        lemma_turn_of(1, -1, 1, -1, -1, -1, -1, -1, 1, radius, ex, ey, ez);
        assert((((-1int) - (-1int)) * (1int - 1int) - ((-1int) - 1int) * ((-1int) - (-1int))) * (radius * 1int - ex) + (((-1int) - 1int) * ((-1int) - 1int) - ((-1int) - 1int) * (1int - 1int)) * (radius * (-1int) - ey) + (((-1int) - 1int) * ((-1int) - (-1int)) - ((-1int) - (-1int)) * ((-1int) - 1int)) * (radius * 1int - ez) < 0) by (nonlinear_arith)
            requires
                radius > 0,
                -radius < ex < radius,
                -radius < ey < radius,
                -radius < ez < radius,
        ;
    } else if k == 11 {
        lemma_turn_of(1, -1, 1, 1, -1, -1, -1, -1, -1, radius, ex, ey, ez);
        assert((((-1int) - (-1int)) * ((-1int) - 1int) - ((-1int) - 1int) * ((-1int) - (-1int))) * (radius * 1int - ex) + (((-1int) - 1int) * ((-1int) - 1int) - (1int - 1int) * ((-1int) - 1int)) * (radius * (-1int) - ey) + ((1int - 1int) * ((-1int) - (-1int)) - ((-1int) - (-1int)) * ((-1int) - 1int)) * (radius * 1int - ez) < 0) by (nonlinear_arith)
            requires
                radius > 0,
                -radius < ex < radius,
                -radius < ey < radius,
                -radius < ez < radius,
        ;
    }
}

/// A viewer in front of the wall sees it.
pub proof fn lemma_wall_room_seen_from_front(radius: int, ex: int, ey: int, ez: int, k: int)
    requires
        radius > 0,
        ez < radius,
        0 <= k < wall_room_faces().len(),
    ensures
        turn(wall_room_faces()[k], radius, ex, ey, ez) < 0,
{
    if k == 0 {
        lemma_turn_of(1, -1, 1, -1, 1, 1, 1, 1, 1, radius, ex, ey, ez);
        assert(((1int - (-1int)) * (1int - 1int) - (1int - 1int) * (1int - (-1int))) * (radius * 1int - ex) + ((1int - 1int) * (1int - 1int) - ((-1int) - 1int) * (1int - 1int)) * (radius * (-1int) - ey) + (((-1int) - 1int) * (1int - (-1int)) - (1int - (-1int)) * (1int - 1int)) * (radius * 1int - ez) < 0) by (nonlinear_arith)
            requires
                radius > 0,
                ez < radius,
        ;
    } else if k == 1 {
        lemma_turn_of(1, -1, 1, -1, -1, 1, -1, 1, 1, radius, ex, ey, ez);
        assert((((-1int) - (-1int)) * (1int - 1int) - (1int - 1int) * (1int - (-1int))) * (radius * 1int - ex) + ((1int - 1int) * ((-1int) - 1int) - ((-1int) - 1int) * (1int - 1int)) * (radius * (-1int) - ey) + (((-1int) - 1int) * (1int - (-1int)) - ((-1int) - (-1int)) * ((-1int) - 1int)) * (radius * 1int - ez) < 0) by (nonlinear_arith)
            requires
                radius > 0,
                ez < radius,
        ;
    }
}

/// A viewer at the origin sees every wall of the narrowing room.
pub proof fn lemma_cone_room_seen_from_origin(radius: int, k: int)
    requires
        radius > 0,
        0 <= k < cone_room_faces().len(),
    ensures
        turn(cone_room_faces()[k], radius, 0, 0, 0) < 0,
{
    if k == 0 {
        lemma_turn_of(1, -1, 1, -1, 1, 1, 1, 1, 1, radius, 0, 0, 0);
        assert(((1int - (-1int)) * (1int - 1int) - (1int - 1int) * (1int - (-1int))) * (radius * 1int - 0) + ((1int - 1int) * (1int - 1int) - ((-1int) - 1int) * (1int - 1int)) * (radius * (-1int) - 0) + (((-1int) - 1int) * (1int - (-1int)) - (1int - (-1int)) * (1int - 1int)) * (radius * 1int - 0) < 0) by (nonlinear_arith)
            requires
                radius > 0,
        ;
    } else if k == 1 {
        lemma_turn_of(1, -1, 1, -1, -1, 1, -1, 1, 1, radius, 0, 0, 0);
        assert((((-1int) - (-1int)) * (1int - 1int) - (1int - 1int) * (1int - (-1int))) * (radius * 1int - 0) + ((1int - 1int) * ((-1int) - 1int) - ((-1int) - 1int) * (1int - 1int)) * (radius * (-1int) - 0) + (((-1int) - 1int) * (1int - (-1int)) - ((-1int) - (-1int)) * ((-1int) - 1int)) * (radius * 1int - 0) < 0) by (nonlinear_arith)
            requires
                radius > 0,
        ;
    } else if k == 2 {
        lemma_turn_of(1, -1, 1, 0, -1, -1, -1, -1, 1, radius, 0, 0, 0);
        assert((((-1int) - (-1int)) * (1int - 1int) - ((-1int) - 1int) * ((-1int) - (-1int))) * (radius * 1int - 0) + (((-1int) - 1int) * ((-1int) - 1int) - (0int - 1int) * (1int - 1int)) * (radius * (-1int) - 0) + ((0int - 1int) * ((-1int) - (-1int)) - ((-1int) - (-1int)) * ((-1int) - 1int)) * (radius * 1int - 0) < 0) by (nonlinear_arith)
            requires
                radius > 0,
        ;
    } else if k == 3 {
        lemma_turn_of(0, 1, -1, 1, 1, 1, -1, 1, 1, radius, 0, 0, 0);
        assert(((1int - 1int) * (1int - (-1int)) - (1int - (-1int)) * (1int - 1int)) * (radius * 0int - 0) + ((1int - (-1int)) * ((-1int) - 0int) - (1int - 0int) * (1int - (-1int))) * (radius * 1int - 0) + ((1int - 0int) * (1int - 1int) - (1int - 1int) * ((-1int) - 0int)) * (radius * (-1int) - 0) < 0) by (nonlinear_arith)
            requires
                radius > 0,
        ;
    } else if k == 4 {
        lemma_turn_of(0, -1, -1, 1, 1, 1, 0, 1, -1, radius, 0, 0, 0);
        assert(((1int - (-1int)) * ((-1int) - (-1int)) - (1int - (-1int)) * (1int - (-1int))) * (radius * 0int - 0) + ((1int - (-1int)) * (0int - 0int) - (1int - 0int) * ((-1int) - (-1int))) * (radius * (-1int) - 0) + ((1int - 0int) * (1int - (-1int)) - (1int - (-1int)) * (0int - 0int)) * (radius * (-1int) - 0) < 0) by (nonlinear_arith)
            requires
                radius > 0,
        ;
    } else if k == 5 {
        lemma_turn_of(0, -1, -1, 1, -1, 1, 1, 1, 1, radius, 0, 0, 0);
        assert((((-1int) - (-1int)) * (1int - (-1int)) - (1int - (-1int)) * (1int - (-1int))) * (radius * 0int - 0) + ((1int - (-1int)) * (1int - 0int) - (1int - 0int) * (1int - (-1int))) * (radius * (-1int) - 0) + ((1int - 0int) * (1int - (-1int)) - ((-1int) - (-1int)) * (1int - 0int)) * (radius * (-1int) - 0) < 0) by (nonlinear_arith)
            requires
                radius > 0,
        ;
    } else if k == 6 {
        lemma_turn_of(-1, -1, 1, 0, 1, -1, -1, 1, 1, radius, 0, 0, 0);
        assert(((1int - (-1int)) * (1int - 1int) - ((-1int) - 1int) * (1int - (-1int))) * (radius * (-1int) - 0) + (((-1int) - 1int) * ((-1int) - (-1int)) - (0int - (-1int)) * (1int - 1int)) * (radius * (-1int) - 0) + ((0int - (-1int)) * (1int - (-1int)) - (1int - (-1int)) * ((-1int) - (-1int))) * (radius * 1int - 0) < 0) by (nonlinear_arith)
            requires
                radius > 0,
        ;
    } else if k == 7 {
        lemma_turn_of(-1, -1, 1, 0, -1, -1, 0, 1, -1, radius, 0, 0, 0);
        assert((((-1int) - (-1int)) * ((-1int) - 1int) - ((-1int) - 1int) * (1int - (-1int))) * (radius * (-1int) - 0) + (((-1int) - 1int) * (0int - (-1int)) - (0int - (-1int)) * ((-1int) - 1int)) * (radius * (-1int) - 0) + ((0int - (-1int)) * (1int - (-1int)) - ((-1int) - (-1int)) * (0int - (-1int))) * (radius * 1int - 0) < 0) by (nonlinear_arith)
            requires
                radius > 0,
        ;
    }
}

/// Seen from its centre every side of a block is turned away: the block shows
/// its sides to the outside only.
pub proof fn lemma_block_turned_outward(radius: int, k: int)
    requires
        radius > 0,
        0 <= k < block_faces().len(),
    ensures
        turn(block_faces()[k], radius, 0, 0, 0) > 0,
{
    if k == 0 {
        lemma_turn_of(-1, -1, -1, -1, 1, -1, 1, 1, -1, radius, 0, 0, 0);
        assert(((1int - (-1int)) * ((-1int) - (-1int)) - ((-1int) - (-1int)) * (1int - (-1int))) * (radius * (-1int) - 0) + (((-1int) - (-1int)) * (1int - (-1int)) - ((-1int) - (-1int)) * ((-1int) - (-1int))) * (radius * (-1int) - 0) + (((-1int) - (-1int)) * (1int - (-1int)) - (1int - (-1int)) * (1int - (-1int))) * (radius * (-1int) - 0) > 0) by (nonlinear_arith)
            requires
                radius > 0,
        ;
    } else if k == 1 {
        lemma_turn_of(-1, -1, -1, 1, 1, -1, 1, -1, -1, radius, 0, 0, 0);
        assert(((1int - (-1int)) * ((-1int) - (-1int)) - ((-1int) - (-1int)) * ((-1int) - (-1int))) * (radius * (-1int) - 0) + (((-1int) - (-1int)) * (1int - (-1int)) - (1int - (-1int)) * ((-1int) - (-1int))) * (radius * (-1int) - 0) + ((1int - (-1int)) * ((-1int) - (-1int)) - (1int - (-1int)) * (1int - (-1int))) * (radius * (-1int) - 0) > 0) by (nonlinear_arith)
            requires
                radius > 0,
        ;
    } else if k == 2 {
        lemma_turn_of(1, -1, -1, 1, 1, -1, 1, 1, 1, radius, 0, 0, 0);
        assert(((1int - (-1int)) * (1int - (-1int)) - ((-1int) - (-1int)) * (1int - (-1int))) * (radius * 1int - 0) + (((-1int) - (-1int)) * (1int - 1int) - (1int - 1int) * (1int - (-1int))) * (radius * (-1int) - 0) + ((1int - 1int) * (1int - (-1int)) - (1int - (-1int)) * (1int - 1int)) * (radius * (-1int) - 0) > 0) by (nonlinear_arith)
            requires
                radius > 0,
        ;
    } else if k == 3 {
        lemma_turn_of(1, -1, -1, 1, 1, 1, 1, -1, 1, radius, 0, 0, 0);
        assert(((1int - (-1int)) * (1int - (-1int)) - (1int - (-1int)) * ((-1int) - (-1int))) * (radius * 1int - 0) + ((1int - (-1int)) * (1int - 1int) - (1int - 1int) * (1int - (-1int))) * (radius * (-1int) - 0) + ((1int - 1int) * ((-1int) - (-1int)) - (1int - (-1int)) * (1int - 1int)) * (radius * (-1int) - 0) > 0) by (nonlinear_arith)
            requires
                radius > 0,
        ;
    } else if k == 4 {
        lemma_turn_of(1, -1, 1, 1, 1, 1, -1, 1, 1, radius, 0, 0, 0);
        assert(((1int - (-1int)) * (1int - 1int) - (1int - 1int) * (1int - (-1int))) * (radius * 1int - 0) + ((1int - 1int) * ((-1int) - 1int) - (1int - 1int) * (1int - 1int)) * (radius * (-1int) - 0) + ((1int - 1int) * (1int - (-1int)) - (1int - (-1int)) * ((-1int) - 1int)) * (radius * 1int - 0) > 0) by (nonlinear_arith)
            requires
                radius > 0,
        ;
    } else if k == 5 {
        lemma_turn_of(1, -1, 1, -1, 1, 1, -1, -1, 1, radius, 0, 0, 0);
        assert(((1int - (-1int)) * (1int - 1int) - (1int - 1int) * ((-1int) - (-1int))) * (radius * 1int - 0) + ((1int - 1int) * ((-1int) - 1int) - ((-1int) - 1int) * (1int - 1int)) * (radius * (-1int) - 0) + (((-1int) - 1int) * ((-1int) - (-1int)) - (1int - (-1int)) * ((-1int) - 1int)) * (radius * 1int - 0) > 0) by (nonlinear_arith)
            requires
                radius > 0,
        ;
    } else if k == 6 {
        lemma_turn_of(-1, -1, 1, -1, 1, 1, -1, 1, -1, radius, 0, 0, 0);
        assert(((1int - (-1int)) * ((-1int) - 1int) - (1int - 1int) * (1int - (-1int))) * (radius * (-1int) - 0) + ((1int - 1int) * ((-1int) - (-1int)) - ((-1int) - (-1int)) * ((-1int) - 1int)) * (radius * (-1int) - 0) + (((-1int) - (-1int)) * (1int - (-1int)) - (1int - (-1int)) * ((-1int) - (-1int))) * (radius * 1int - 0) > 0) by (nonlinear_arith)
            requires
                radius > 0,
        ;
    } else if k == 7 {
        lemma_turn_of(-1, -1, 1, -1, 1, -1, -1, -1, -1, radius, 0, 0, 0);
        assert(((1int - (-1int)) * ((-1int) - 1int) - ((-1int) - 1int) * ((-1int) - (-1int))) * (radius * (-1int) - 0) + (((-1int) - 1int) * ((-1int) - (-1int)) - ((-1int) - (-1int)) * ((-1int) - 1int)) * (radius * (-1int) - 0) + (((-1int) - (-1int)) * ((-1int) - (-1int)) - (1int - (-1int)) * ((-1int) - (-1int))) * (radius * 1int - 0) > 0) by (nonlinear_arith)
            requires
                radius > 0,
        ;
    } else if k == 8 {
        lemma_turn_of(-1, 1, -1, -1, 1, 1, 1, 1, 1, radius, 0, 0, 0);
        assert(((1int - 1int) * (1int - (-1int)) - (1int - (-1int)) * (1int - 1int)) * (radius * (-1int) - 0) + ((1int - (-1int)) * (1int - (-1int)) - ((-1int) - (-1int)) * (1int - (-1int))) * (radius * 1int - 0) + (((-1int) - (-1int)) * (1int - 1int) - (1int - 1int) * (1int - (-1int))) * (radius * (-1int) - 0) > 0) by (nonlinear_arith)
            requires
                radius > 0,
        ;
    } else if k == 9 {
        lemma_turn_of(-1, 1, -1, 1, 1, 1, 1, 1, -1, radius, 0, 0, 0);
        assert(((1int - 1int) * ((-1int) - (-1int)) - (1int - (-1int)) * (1int - 1int)) * (radius * (-1int) - 0) + ((1int - (-1int)) * (1int - (-1int)) - (1int - (-1int)) * ((-1int) - (-1int))) * (radius * 1int - 0) + ((1int - (-1int)) * (1int - 1int) - (1int - 1int) * (1int - (-1int))) * (radius * (-1int) - 0) > 0) by (nonlinear_arith)
            requires
                radius > 0,
        ;
    } else if k == 10 {
        lemma_turn_of(1, -1, 1, -1, -1, 1, -1, -1, -1, radius, 0, 0, 0);
        assert((((-1int) - (-1int)) * ((-1int) - 1int) - (1int - 1int) * ((-1int) - (-1int))) * (radius * 1int - 0) + ((1int - 1int) * ((-1int) - 1int) - ((-1int) - 1int) * ((-1int) - 1int)) * (radius * (-1int) - 0) + (((-1int) - 1int) * ((-1int) - (-1int)) - ((-1int) - (-1int)) * ((-1int) - 1int)) * (radius * 1int - 0) > 0) by (nonlinear_arith)
            requires
                radius > 0,
        ;
    } else if k == 11 {
        lemma_turn_of(1, -1, 1, -1, -1, -1, 1, -1, -1, radius, 0, 0, 0);
        assert((((-1int) - (-1int)) * ((-1int) - 1int) - ((-1int) - 1int) * ((-1int) - (-1int))) * (radius * 1int - 0) + (((-1int) - 1int) * (1int - 1int) - ((-1int) - 1int) * ((-1int) - 1int)) * (radius * (-1int) - 0) + (((-1int) - 1int) * ((-1int) - (-1int)) - ((-1int) - (-1int)) * (1int - 1int)) * (radius * 1int - 0) > 0) by (nonlinear_arith)
            requires
                radius > 0,
        ;
    }
}

/// A crossing of the grid that is wrapped round a round shape: band `stack` from
/// the bottom, band `slice` round the axis.
#[derive(Clone, Copy, Debug, PartialEq, Eq, Structural)]
pub struct GridPoint {
    pub stack: usize,
    pub slice: usize,
}

/// A triangle of the grid, its corners in drawing order.
#[derive(Clone, Copy, Debug, PartialEq, Eq, Structural)]
pub struct GridTriangle {
    pub a: GridPoint,
    pub b: GridPoint,
    pub c: GridPoint,
}

/// The crossing of band `stack` with band `slice`.
pub open spec fn grid_point(stack: int, slice: int) -> GridPoint {
    GridPoint { stack: stack as usize, slice: slice as usize }
}

/// Triangle number `k` of a grid of `detail` by `detail` cells. Each cell gives
/// two triangles: from its first corner up, then round; and from its first
/// corner to the corner opposite, then back along the lower band.
pub open spec fn grid_face(detail: int, k: int) -> GridTriangle {
    let cell = k / 2;
    let i = cell / detail;
    let j = cell % detail;
    if k % 2 == 0 {
        GridTriangle { a: grid_point(i, j), b: grid_point(i + 1, j), c: grid_point(i + 1, j + 1) }
    } else {
        GridTriangle { a: grid_point(i, j), b: grid_point(i + 1, j + 1), c: grid_point(i, j + 1) }
    }
}

/// The triangles of a grid of `detail` by `detail` cells, band by band.
pub open spec fn grid_faces(detail: int) -> Seq<GridTriangle> {
    Seq::new((2 * detail * detail) as nat, |k: int| grid_face(detail, k))
}

/// Cuts a round shape into triangles: `detail` bands from bottom to top, each of
/// `detail` cells round the axis, each cell two triangles.
pub fn tessellate(detail: usize) -> (mesh: Vec<GridTriangle>)
    requires
        2 * detail * detail <= usize::MAX,
    ensures
        mesh@ == grid_faces(detail as int),
{
    let mut mesh: Vec<GridTriangle> = Vec::new();
    let mut i: usize = 0;
    while i < detail
        invariant
            i <= detail,
            2 * detail * detail <= usize::MAX,
            mesh@.len() == 2 * (i * detail),
            forall|k: int| 0 <= k < mesh@.len() ==> #[trigger] mesh@[k] == grid_face(detail as int, k),
        decreases detail - i,
    {
        let mut j: usize = 0;
        while j < detail
            invariant
                j <= detail,
                i < detail,
                2 * detail * detail <= usize::MAX,
                mesh@.len() == 2 * (i * detail + j),
                forall|k: int|
                    0 <= k < mesh@.len() ==> #[trigger] mesh@[k] == grid_face(detail as int, k),
            decreases detail - j,
        {
            let ghost cell = i * detail + j;
            proof {
                vstd::arithmetic::div_mod::lemma_fundamental_div_mod_converse(
                    cell as int,
                    detail as int,
                    i as int,
                    j as int,
                );
                assert(i * detail + j < detail * detail) by (nonlinear_arith)
                    requires
                        i < detail,
                        j < detail,
                ;
            }
            let first = GridPoint { stack: i, slice: j };
            let above = GridPoint { stack: i + 1, slice: j };
            let opposite = GridPoint { stack: i + 1, slice: j + 1 };
            let beside = GridPoint { stack: i, slice: j + 1 };
            mesh.push(GridTriangle { a: first, b: above, c: opposite });
            mesh.push(GridTriangle { a: first, b: opposite, c: beside });
            proof {
                assert((2 * cell) / 2 == cell && (2 * cell) % 2 == 0);
                assert((2 * cell + 1) / 2 == cell && (2 * cell + 1) % 2 == 1);
            }
            j = j + 1;
        }
        proof {
            assert(i * detail + detail == (i + 1) * detail) by (nonlinear_arith);
        }
        i = i + 1;
    }
    proof {
        assert(2 * (detail * detail) == 2 * detail * detail) by (nonlinear_arith);
        assert(mesh@ =~= grid_faces(detail as int));
    }
    mesh
}

/// A corner of a room whose walls stand in a ring: on the floor or on the ceiling
/// at one of the ring's posts, or in the middle of the ceiling or of the floor.
#[derive(Clone, Copy, Debug, PartialEq, Eq, Structural)]
pub enum RingCorner {
    Bottom(usize),
    Top(usize),
    TopCenter,
    BottomCenter,
}

/// A triangle of a ring-shaped room, its corners in drawing order.
#[derive(Clone, Copy, Debug, PartialEq, Eq, Structural)]
pub struct RingTriangle {
    pub a: RingCorner,
    pub b: RingCorner,
    pub c: RingCorner,
}

/// The post that follows post `i` round a ring of `sides` posts.
pub open spec fn next_post(i: int, sides: int) -> usize {
    ((i + 1) % sides) as usize
}

/// Triangle number `k` of a ring-shaped room with `sides` walls: first the walls,
/// two triangles each, then the ceiling and then the floor, each a fan of
/// triangles round its middle.
pub open spec fn ring_face(sides: int, k: int) -> RingTriangle {
    if k < 2 * sides {
        let i = k / 2;
        if k % 2 == 0 {
            RingTriangle {
                a: RingCorner::Bottom(i as usize),
                b: RingCorner::Bottom(next_post(i, sides)),
                c: RingCorner::Top(i as usize),
            }
        } else {
            RingTriangle {
                a: RingCorner::Top(i as usize),
                b: RingCorner::Bottom(next_post(i, sides)),
                c: RingCorner::Top(next_post(i, sides)),
            }
        }
    } else if k < 3 * sides {
        let i = k - 2 * sides;
        RingTriangle {
            a: RingCorner::Top(i as usize),
            b: RingCorner::Top(next_post(i, sides)),
            c: RingCorner::TopCenter,
        }
    } else {
        let i = k - 3 * sides;
        RingTriangle {
            a: RingCorner::Bottom(next_post(i, sides)),
            b: RingCorner::Bottom(i as usize),
            c: RingCorner::BottomCenter,
        }
    }
}

/// The triangles of a ring-shaped room with `sides` walls.
pub open spec fn ring_faces(sides: int) -> Seq<RingTriangle> {
    Seq::new((4 * sides) as nat, |k: int| ring_face(sides, k))
}

/// The number of walls of the octagon room.
pub const OCTAGON_SIDES: usize = 8;

/// The triangles of a room whose `sides` walls stand in a ring.
pub fn ring_room(sides: usize) -> (mesh: Vec<RingTriangle>)
    requires
        0 < sides,
        4 * sides <= usize::MAX,
    ensures
        mesh@ == ring_faces(sides as int),
{
    let mut mesh: Vec<RingTriangle> = Vec::new();
    let mut i: usize = 0;
    while i < sides
        invariant
            i <= sides,
            0 < sides,
            4 * sides <= usize::MAX,
            mesh@.len() == 2 * i,
            forall|k: int| 0 <= k < mesh@.len() ==> #[trigger] mesh@[k] == ring_face(sides as int, k),
        decreases sides - i,
    {
        let next = (i + 1) % sides;
        mesh.push(
            RingTriangle { a: RingCorner::Bottom(i), b: RingCorner::Bottom(next), c: RingCorner::Top(i) },
        );
        mesh.push(
            RingTriangle { a: RingCorner::Top(i), b: RingCorner::Bottom(next), c: RingCorner::Top(next) },
        );
        proof {
            assert((2 * i) / 2 == i && (2 * i) % 2 == 0);
            assert((2 * i + 1) / 2 == i && (2 * i + 1) % 2 == 1);
        }
        i = i + 1;
    }
    let mut i: usize = 0;
    while i < sides
        invariant
            i <= sides,
            0 < sides,
            4 * sides <= usize::MAX,
            mesh@.len() == 2 * sides + i,
            forall|k: int| 0 <= k < mesh@.len() ==> #[trigger] mesh@[k] == ring_face(sides as int, k),
        decreases sides - i,
    {
        let next = (i + 1) % sides;
        mesh.push(
            RingTriangle { a: RingCorner::Top(i), b: RingCorner::Top(next), c: RingCorner::TopCenter },
        );
        i = i + 1;
    }
    let mut i: usize = 0;
    while i < sides
        invariant
            i <= sides,
            0 < sides,
            4 * sides <= usize::MAX,
            mesh@.len() == 3 * sides + i,
            forall|k: int| 0 <= k < mesh@.len() ==> #[trigger] mesh@[k] == ring_face(sides as int, k),
        decreases sides - i,
    {
        let next = (i + 1) % sides;
        mesh.push(
            RingTriangle {
                a: RingCorner::Bottom(next),
                b: RingCorner::Bottom(i),
                c: RingCorner::BottomCenter,
            },
        );
        i = i + 1;
    }
    proof {
        assert(mesh@ =~= ring_faces(sides as int));
    }
    mesh
}

/// The triangles of the octagon room.
pub fn octagon_room() -> (mesh: Vec<RingTriangle>)
    ensures
        mesh@ == ring_faces(OCTAGON_SIDES as int),
{
    ring_room(OCTAGON_SIDES)
}

/// Where a corner of a ring-shaped room lies: a post stands on the floor plan at
/// `posts[i]`, the floor lies `half_height` below the centre and the ceiling as
/// far above it.
pub open spec fn ring_point(c: RingCorner, posts: Seq<(int, int)>, half_height: int) -> (
    int,
    int,
    int,
) {
    match c {
        RingCorner::Bottom(i) => (posts[i as int].0, -half_height, posts[i as int].1),
        RingCorner::Top(i) => (posts[i as int].0, half_height, posts[i as int].1),
        RingCorner::TopCenter => (0, half_height, 0),
        RingCorner::BottomCenter => (0, -half_height, 0),
    }
}

/// How a triangle with the corners `a`, `b` and `c` is turned to a viewer at the
/// origin: the product of its normal with the way from the origin to `a`.
pub open spec fn turn_of_points(a: (int, int, int), b: (int, int, int), c: (int, int, int)) -> int {
    ((b.1 - a.1) * (c.2 - a.2) - (b.2 - a.2) * (c.1 - a.1)) * a.0 + ((b.2 - a.2) * (c.0 - a.0) - (b.0
        - a.0) * (c.2 - a.2)) * a.1 + ((b.0 - a.0) * (c.1 - a.1) - (b.1 - a.1) * (c.0 - a.0)) * a.2
}

/// How a triangle of a ring-shaped room is turned to a viewer at the centre. A
/// triangle is drawn unless this is positive.
pub open spec fn ring_turn(t: RingTriangle, posts: Seq<(int, int)>, half_height: int) -> int {
    turn_of_points(
        ring_point(t.a, posts, half_height),
        ring_point(t.b, posts, half_height),
        ring_point(t.c, posts, half_height),
    )
}

/// How far post `q` lies round the centre from post `p`: positive where the way
/// from `p` to `q` goes round the centre in the direction of growing angle.
pub open spec fn sweep(p: (int, int), q: (int, int)) -> int {
    p.0 * q.1 - p.1 * q.0
}

/// Whether the posts follow one another round the centre, the first again after
/// the last.
pub open spec fn stand_in_a_ring(posts: Seq<(int, int)>) -> bool {
    forall|i: int|
        0 <= i < posts.len() ==> sweep(#[trigger] posts[i], posts[(i + 1) % (posts.len() as int)])
            > 0
}

/// The product of the normal of a triangle with sides `u` and `v` from its first
/// corner `a` with the way to that corner, where the parts of the normal are
/// known.
proof fn lemma_turn_by_normal(
    a: (int, int, int),
    b: (int, int, int),
    c: (int, int, int),
    nx: int,
    ny: int,
    nz: int,
)
    requires
        nx == (b.1 - a.1) * (c.2 - a.2) - (b.2 - a.2) * (c.1 - a.1),
        ny == (b.2 - a.2) * (c.0 - a.0) - (b.0 - a.0) * (c.2 - a.2),
        nz == (b.0 - a.0) * (c.1 - a.1) - (b.1 - a.1) * (c.0 - a.0),
    ensures
        turn_of_points(a, b, c) == nx * a.0 + ny * a.1 + nz * a.2,
{
}

/// The normal of a wall between the posts `(px, pz)` and `(qx, qz)` points to
/// the centre where the second post lies round the centre from the first.
proof fn lemma_wall_normal(px: int, pz: int, qx: int, qz: int, h: int, s: int)
    requires
        s == px * qz - pz * qx,
    ensures
        (0 - (qz - pz) * (h + h)) * px + 0 * h + ((qx - px) * (h + h)) * pz == -(2 * (s * h)),
        (0 - (qz - pz) * (h + h)) * px + 0 * (-h) + ((qx - px) * (h + h)) * pz == -(2 * (s * h)),
{
    let d = h + h;
    let az = qz - pz;
    let ax = qx - px;
    assert((az * d) * px == d * (az * px)) by (nonlinear_arith);
    assert((ax * d) * pz == d * (ax * pz)) by (nonlinear_arith);
    assert(ax * pz - az * px == -s) by (nonlinear_arith)
        requires
            az == qz - pz,
            ax == qx - px,
            s == px * qz - pz * qx,
    ;
    let m = az * px;
    let n = ax * pz;
    assert(d * n - d * m == d * (n - m)) by (nonlinear_arith);
    assert(d * (-s) == -(2 * (s * h))) by (nonlinear_arith)
        requires
            d == h + h,
    ;
    assert((0 - az * d) * px == -((az * d) * px)) by (nonlinear_arith);
}

/// The normal of the ceiling points down and that of the floor up where the
/// posts follow one another round the centre.
proof fn lemma_flat_normal(px: int, pz: int, qx: int, qz: int, s: int)
    requires
        s == px * qz - pz * qx,
    ensures
        (qz - pz) * (0 - px) - (qx - px) * (0 - pz) == -s,
        (pz - qz) * (0 - qx) - (px - qx) * (0 - qz) == s,
{
    assert((qz - pz) * (0 - px) - (qx - px) * (0 - pz) == -s) by (nonlinear_arith)
        requires
            s == px * qz - pz * qx,
    ;
    assert((pz - qz) * (0 - qx) - (px - qx) * (0 - qz) == s) by (nonlinear_arith)
        requires
            s == px * qz - pz * qx,
    ;
}

/// The turn of a wall's triangle that stands on the floor between the posts
/// `(px, pz)` and `(qx, qz)`.
proof fn lemma_lower_wall_turn(px: int, pz: int, qx: int, qz: int, h: int, s: int)
    requires
        s == px * qz - pz * qx,
    ensures
        turn_of_points((px, -h, pz), (qx, -h, qz), (px, h, pz)) == -(2 * (s * h)),
{
    let nx = 0 - (qz - pz) * (h + h);
    let nz = (qx - px) * (h + h);
    assert(((-h) - (-h)) * (pz - pz) == 0) by (nonlinear_arith);
    assert((qz - pz) * (h - (-h)) == (qz - pz) * (h + h)) by (nonlinear_arith);
    assert((qz - pz) * (px - px) == 0) by (nonlinear_arith);
    assert((qx - px) * (pz - pz) == 0) by (nonlinear_arith);
    assert((qx - px) * (h - (-h)) == (qx - px) * (h + h)) by (nonlinear_arith);
    assert(((-h) - (-h)) * (px - px) == 0) by (nonlinear_arith);
    lemma_turn_by_normal((px, -h, pz), (qx, -h, qz), (px, h, pz), nx, 0, nz);
    lemma_wall_normal(px, pz, qx, qz, h, s);
}

/// The turn of a wall's triangle that hangs from the ceiling between the posts
/// `(px, pz)` and `(qx, qz)`.
proof fn lemma_upper_wall_turn(px: int, pz: int, qx: int, qz: int, h: int, s: int)
    requires
        s == px * qz - pz * qx,
    ensures
        turn_of_points((px, h, pz), (qx, -h, qz), (qx, h, qz)) == -(2 * (s * h)),
{
    let nx = 0 - (qz - pz) * (h + h);
    let nz = (qx - px) * (h + h);
    assert(((-h) - h) * (qz - pz) == -((qz - pz) * (h + h))) by (nonlinear_arith);
    assert((qz - pz) * (h - h) == 0) by (nonlinear_arith);
    assert((qz - pz) * (qx - px) == (qx - px) * (qz - pz)) by (nonlinear_arith);
    assert((qx - px) * (h - h) == 0) by (nonlinear_arith);
    assert(((-h) - h) * (qx - px) == -((qx - px) * (h + h))) by (nonlinear_arith);
    lemma_turn_by_normal((px, h, pz), (qx, -h, qz), (qx, h, qz), nx, 0, nz);
    lemma_wall_normal(px, pz, qx, qz, h, s);
}

/// The turn of a triangle of the ceiling between the posts `(px, pz)` and
/// `(qx, qz)`.
proof fn lemma_ceiling_turn(px: int, pz: int, qx: int, qz: int, h: int, s: int)
    requires
        s == px * qz - pz * qx,
    ensures
        turn_of_points((px, h, pz), (qx, h, qz), (0, h, 0)) == -(s * h),
{
    assert((h - h) * (0 - pz) == 0) by (nonlinear_arith);
    assert((qz - pz) * (h - h) == 0) by (nonlinear_arith);
    assert((qx - px) * (h - h) == 0) by (nonlinear_arith);
    assert((h - h) * (0 - px) == 0) by (nonlinear_arith);
    lemma_flat_normal(px, pz, qx, qz, s);
    lemma_turn_by_normal((px, h, pz), (qx, h, qz), (0, h, 0), 0, -s, 0);
    assert((-s) * h == -(s * h)) by (nonlinear_arith);
}

/// The turn of a triangle of the floor between the posts `(px, pz)` and
/// `(qx, qz)`.
proof fn lemma_floor_turn(px: int, pz: int, qx: int, qz: int, h: int, s: int)
    requires
        s == px * qz - pz * qx,
    ensures
        turn_of_points((qx, -h, qz), (px, -h, pz), (0, -h, 0)) == -(s * h),
{
    assert(((-h) - (-h)) * (0 - qz) == 0) by (nonlinear_arith);
    assert((pz - qz) * ((-h) - (-h)) == 0) by (nonlinear_arith);
    assert((px - qx) * ((-h) - (-h)) == 0) by (nonlinear_arith);
    assert(((-h) - (-h)) * (0 - qx) == 0) by (nonlinear_arith);
    lemma_flat_normal(px, pz, qx, qz, s);
    lemma_turn_by_normal((qx, -h, qz), (px, -h, pz), (0, -h, 0), 0, s, 0);
    assert(s * (-h) == -(s * h)) by (nonlinear_arith);
}

/// Seen from its centre no wall of a ring-shaped room is turned away, nor its
/// ceiling or floor, wherever its posts stand and however high it is, as long as
/// the posts follow one another round the centre.
pub proof fn lemma_ring_room_seen_from_centre(
    sides: int,
    posts: Seq<(int, int)>,
    half_height: int,
    k: int,
)
    requires
        0 < sides <= usize::MAX,
        posts.len() == sides,
        stand_in_a_ring(posts),
        half_height > 0,
        0 <= k < 4 * sides,
    ensures
        ring_turn(ring_face(sides, k), posts, half_height) < 0,
{
    let i = if k < 2 * sides {
        k / 2
    } else if k < 3 * sides {
        k - 2 * sides
    } else {
        k - 3 * sides
    };
    let next = (i + 1) % sides;
    let p = posts[i];
    let q = posts[next];
    let h = half_height;
    let s = sweep(p, q);
    assert(s > 0);
    assert(s * h > 0) by (nonlinear_arith)
        requires
            s > 0,
            h > 0,
    ;
    if k < 2 * sides {
        if k % 2 == 0 {
            lemma_lower_wall_turn(p.0, p.1, q.0, q.1, h, s);
        } else {
            lemma_upper_wall_turn(p.0, p.1, q.0, q.1, h, s);
        }
    } else if k < 3 * sides {
        lemma_ceiling_turn(p.0, p.1, q.0, q.1, h, s);
    } else {
        lemma_floor_turn(p.0, p.1, q.0, q.1, h, s);
    }
}

} // verus!
