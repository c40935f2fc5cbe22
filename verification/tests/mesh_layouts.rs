use scene_explorer::mesh::{
    box_layout, cylinder_layout, plane_layout, sphere_layout, Corner, CylinderVertex, GridPoint,
    IVec3, Topology,
};

fn v(x: i32, y: i32, z: i32) -> IVec3 {
    IVec3 { x, y, z }
}

fn turn(a: IVec3, b: IVec3, c: IVec3, n: IVec3) -> i64 {
    let (ax, ay, az) = ((b.x - a.x) as i64, (b.y - a.y) as i64, (b.z - a.z) as i64);
    let (bx, by, bz) = ((c.x - a.x) as i64, (c.y - a.y) as i64, (c.z - a.z) as i64);
    (ay * bz - az * by) * n.x as i64 + (az * bx - ax * bz) * n.y as i64
        + (ax * by - ay * bx) * n.z as i64
}

fn assert_well_formed<V>(t: &Topology<V>) {
    assert_eq!(t.indices.len() % 3, 0);
    for &i in &t.indices {
        assert!((i as usize) < t.vertices.len(), "index {} out of range", i);
    }
}

fn assert_faces_outward(t: &Topology<Corner>) {
    for tri in t.indices.chunks(3) {
        let a = t.vertices[tri[0] as usize];
        let b = t.vertices[tri[1] as usize];
        let c = t.vertices[tri[2] as usize];
        assert!(turn(a.position, b.position, c.position, a.normal) > 0);
    }
}

#[test]
fn plane_layout_matches_the_ground_quad() {
    let t = plane_layout();
    assert_eq!(t.indices, vec![0, 3, 2, 0, 2, 1]);
    let up = v(0, 1, 0);
    assert_eq!(t.vertices[0], Corner { position: v(-1, 0, -1), normal: up, u: 0, v: 0 });
    assert_eq!(t.vertices[1], Corner { position: v(1, 0, -1), normal: up, u: 1, v: 0 });
    assert_eq!(t.vertices[2], Corner { position: v(1, 0, 1), normal: up, u: 1, v: 1 });
    assert_eq!(t.vertices[3], Corner { position: v(-1, 0, 1), normal: up, u: 0, v: 1 });
    assert_well_formed(&t);
    assert_faces_outward(&t);
}

#[test]
fn box_layout_has_six_faces_of_four_corners() {
    let t = box_layout();
    assert_eq!(t.vertices.len(), 24);
    assert_eq!(t.indices.len(), 36);
    // The top face, as the renderer lists it.
    assert_eq!(t.vertices[0].position, v(-1, 1, 1));
    assert_eq!(t.vertices[1].position, v(1, 1, 1));
    assert_eq!(t.vertices[2].position, v(1, 1, -1));
    assert_eq!(t.vertices[3].position, v(-1, 1, -1));
    // The -X face.
    assert_eq!(t.vertices[20].position, v(-1, -1, -1));
    assert_eq!(t.vertices[21].position, v(-1, -1, 1));
    assert_eq!(t.vertices[22].position, v(-1, 1, 1));
    assert_eq!(t.vertices[23].position, v(-1, 1, -1));
    let normals = [v(0, 1, 0), v(0, -1, 0), v(0, 0, 1), v(0, 0, -1), v(1, 0, 0), v(-1, 0, 0)];
    let uvs = [(0, 0), (1, 0), (1, 1), (0, 1)];
    for f in 0..6 {
        for c in 0..4 {
            let corner = t.vertices[4 * f + c];
            assert_eq!(corner.normal, normals[f]);
            assert_eq!((corner.u, corner.v), uvs[c]);
        }
        let base = 4 * f as u32;
        assert_eq!(
            &t.indices[6 * f..6 * f + 6],
            &[base, base + 1, base + 2, base, base + 2, base + 3]
        );
    }
    assert_well_formed(&t);
    assert_faces_outward(&t);
}

#[test]
fn box_corners_lie_on_their_faces() {
    let t = box_layout();
    for c in &t.vertices {
        let p = c.position;
        let n = c.normal;
        assert_eq!(p.x * n.x + p.y * n.y + p.z * n.z, 1);
        assert!(p.x.abs() == 1 && p.y.abs() == 1 && p.z.abs() == 1);
    }
}

#[test]
fn sphere_layout_counts_and_indices() {
    let t = sphere_layout(12, 20);
    assert_eq!(t.vertices.len(), 13 * 21);
    assert_eq!(t.indices.len(), 6 * 12 * 20);
    assert_eq!(t.vertices[0], GridPoint { stack: 0, slice: 0 });
    assert_eq!(t.vertices[21], GridPoint { stack: 1, slice: 0 });
    assert_eq!(t.vertices[13 * 21 - 1], GridPoint { stack: 12, slice: 20 });
    // First quad: a = 0, b = 21.
    assert_eq!(&t.indices[0..6], &[0, 1, 21, 21, 1, 22]);
    // Quad at stack 3, slice 5: a = 3 * 21 + 5 = 68, b = 89.
    let q = 3 * 20 + 5;
    assert_eq!(&t.indices[6 * q..6 * q + 6], &[68, 69, 89, 89, 69, 90]);
    assert_well_formed(&t);
}

#[test]
fn sphere_layout_of_the_boulder() {
    let t = sphere_layout(10, 16);
    assert_eq!(t.vertices.len(), 11 * 17);
    assert_eq!(*t.indices.iter().max().unwrap(), 11 * 17 - 1);
    assert_well_formed(&t);
}

#[test]
fn sphere_layout_degenerate_subdivisions() {
    let t = sphere_layout(0, 5);
    assert_eq!(t.vertices.len(), 6);
    assert!(t.indices.is_empty());
    let t = sphere_layout(4, 0);
    assert_eq!(t.vertices.len(), 5);
    assert!(t.indices.is_empty());
}

#[test]
fn cylinder_layout_of_the_trunk() {
    let s = 16u32;
    let t = cylinder_layout(s);
    assert_eq!(t.vertices.len(), 4 * 16 + 4);
    assert_eq!(t.indices.len(), 12 * 16);
    assert_eq!(t.vertices[0], CylinderVertex::Side { ring: 0, top: false });
    assert_eq!(t.vertices[1], CylinderVertex::Side { ring: 0, top: true });
    assert_eq!(t.vertices[33], CylinderVertex::Side { ring: 16, top: true });
    assert_eq!(t.vertices[34], CylinderVertex::CapCenter { top: false });
    assert_eq!(t.vertices[35], CylinderVertex::CapRim { ring: 0, top: false });
    assert_eq!(t.vertices[51], CylinderVertex::CapCenter { top: true });
    assert_eq!(t.vertices[67], CylinderVertex::CapRim { ring: 15, top: true });
    // Side quad 0 and 15.
    assert_eq!(&t.indices[0..6], &[0, 1, 3, 0, 3, 2]);
    assert_eq!(&t.indices[90..96], &[30, 31, 33, 30, 33, 32]);
    // Bottom cap: (centre, next, current); the last triangle wraps to rim 0.
    assert_eq!(&t.indices[96..99], &[34, 36, 35]);
    assert_eq!(&t.indices[96 + 45..96 + 48], &[34, 35, 50]);
    // Top cap: (centre, current, next).
    assert_eq!(&t.indices[144..147], &[51, 52, 53]);
    assert_eq!(&t.indices[189..192], &[51, 67, 52]);
    assert_well_formed(&t);
}

#[test]
fn cylinder_layout_with_no_slices() {
    let t = cylinder_layout(0);
    assert_eq!(
        t.vertices,
        vec![
            CylinderVertex::Side { ring: 0, top: false },
            CylinderVertex::Side { ring: 0, top: true },
            CylinderVertex::CapCenter { top: false },
            CylinderVertex::CapCenter { top: true },
        ]
    );
    assert!(t.indices.is_empty());
}
