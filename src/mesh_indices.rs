use vstd::prelude::*;

verus! {

/// The two triangles of a quad whose four corners are the vertices
/// `first` to `first + 3`, counter-clockwise.
pub open spec fn quad(first: int) -> Seq<u32> {
    seq![first as u32, (first + 1) as u32, (first + 2) as u32, (first + 2) as u32, (first + 3) as u32, first as u32]
}

/// The triangles of `n` quads of four consecutive vertices each.
pub open spec fn quads(n: nat) -> Seq<u32>
    decreases n,
{
    if n == 0 {
        Seq::empty()
    } else {
        quads((n - 1) as nat) + quad(4 * (n - 1))
    }
}

/// Appends the two triangles of the quad whose corners start at vertex `first`.
pub fn add_quad_indices(indices: &mut Vec<u32>, first: u32)
    requires
        first <= u32::MAX - 3,
    ensures
        final(indices)@ == old(indices)@ + quad(first as int),
{
    indices.push(first);
    indices.push(first + 1);
    indices.push(first + 2);
    indices.push(first + 2);
    indices.push(first + 3);
    indices.push(first);
    assert(indices@ =~= old(indices)@ + quad(first as int));
}

/// Triangles of `n` quads, each over the next four vertices.
fn quad_list(n: u32) -> (r: Vec<u32>)
    requires
        n <= 1024,
    ensures
        r@ == quads(n as nat),
{
    let mut indices: Vec<u32> = Vec::new();
    let mut k: u32 = 0;
    while k < n
        invariant
            k <= n <= 1024,
            indices@ == quads(k as nat),
        decreases n - k,
    {
        add_quad_indices(&mut indices, 4 * k);
        k = k + 1;
    }
    indices
}

/// Triangles of the unit cube: six faces of four vertices each.
pub fn unit_cube_indices() -> (r: Vec<u32>)
    ensures
        r@ == quads(6),
{
    quad_list(6)
}

/// Triangles of the ground plane: one quad.
pub fn plane_indices() -> (r: Vec<u32>)
    ensures
        r@ == quads(1),
{
    quad_list(1)
}

/// Side wall `i` of a cylinder whose rim vertices alternate top and bottom.
pub open spec fn cylinder_side(i: int) -> Seq<u32> {
    let i0 = 2 * i;
    seq![i0 as u32, (i0 + 2) as u32, (i0 + 1) as u32, (i0 + 2) as u32, (i0 + 3) as u32, (i0 + 1) as u32]
}

/// Cap wedges `i` (top, then bottom) of a cylinder with `sides` sides: the
/// cap rims follow the `2 * (sides + 1)` wall vertices, and the two centres
/// follow the rims.
pub open spec fn cylinder_cap(sides: int, i: int) -> Seq<u32> {
    let rim0 = 2 * (sides + 1) + 2 * i;
    let rim1 = rim0 + 2;
    let center = 4 * (sides + 1);
    seq![center as u32, rim1 as u32, rim0 as u32, (center + 1) as u32, (rim0 + 1) as u32, (rim1 + 1) as u32]
}

pub open spec fn cylinder_walls(n: nat) -> Seq<u32>
    decreases n,
{
    if n == 0 {
        Seq::empty()
    } else {
        cylinder_walls((n - 1) as nat) + cylinder_side(n - 1)
    }
}

pub open spec fn cylinder_caps(sides: int, n: nat) -> Seq<u32>
    decreases n,
{
    if n == 0 {
        Seq::empty()
    } else {
        cylinder_caps(sides, (n - 1) as nat) + cylinder_cap(sides, n - 1)
    }
}

/// Triangles of a cylinder with `sides` sides: the walls, then the caps.
pub fn cylinder_indices(sides: usize) -> (r: Vec<u32>)
    requires
        3 <= sides,
        4 * (sides + 1) + 1 <= u32::MAX,
    ensures
        r@ == cylinder_walls(sides as nat) + cylinder_caps(sides as int, sides as nat),
{
    let n = sides as u32;
    let mut walls: Vec<u32> = Vec::new();
    let mut i: u32 = 0;
    while i < n
        invariant
            i <= n,
            n == sides,
            4 * (sides + 1) + 1 <= u32::MAX,
            walls@ == cylinder_walls(i as nat),
        decreases n - i,
    {
        let i0 = i * 2;
        let ghost prev = walls@;
        walls.push(i0);
        walls.push(i0 + 2);
        walls.push(i0 + 1);
        walls.push(i0 + 2);
        walls.push(i0 + 3);
        walls.push(i0 + 1);
        assert(walls@ =~= prev + cylinder_side(i as int));
        i = i + 1;
    }
    let rim = (n + 1) * 2;
    let center = (n + 1) * 4;
    let mut caps: Vec<u32> = Vec::new();
    let mut i: u32 = 0;
    while i < n
        invariant
            i <= n,
            n == sides,
            4 * (sides + 1) + 1 <= u32::MAX,
            rim == 2 * (sides + 1),
            center == 4 * (sides + 1),
            caps@ == cylinder_caps(sides as int, i as nat),
        decreases n - i,
    {
        let rim0 = rim + i * 2;
        let rim1 = rim0 + 2;
        let ghost prev = caps@;
        caps.push(center);
        caps.push(rim1);
        caps.push(rim0);
        caps.push(center + 1);
        caps.push(rim0 + 1);
        caps.push(rim1 + 1);
        assert(caps@ =~= prev + cylinder_cap(sides as int, i as int));
        i = i + 1;
    }
    let mut all = walls;
    let mut k: usize = 0;
    let ghost w = all@;
    while k < caps.len()
        invariant
            k <= caps@.len(),
            w == cylinder_walls(sides as nat),
            caps@ == cylinder_caps(sides as int, sides as nat),
            all@ == w + caps@.subrange(0, k as int),
        decreases caps@.len() - k,
    {
        all.push(caps[k]);
        assert(all@ =~= w + caps@.subrange(0, k + 1));
        k = k + 1;
    }
    assert(caps@.subrange(0, caps@.len() as int) =~= caps@);
    all
}

/// The two triangles of cell `(x, z)` of a grid with `cells` cells a side,
/// whose `cells + 1` vertices a row are numbered row by row.
pub open spec fn grid_cell(cells: int, x: int, z: int) -> Seq<u32> {
    let i0 = z * (cells + 1) + x;
    let i2 = i0 + cells + 1;
    seq![i0 as u32, i2 as u32, (i0 + 1) as u32, (i0 + 1) as u32, i2 as u32, (i2 + 1) as u32]
}

/// The triangles of the first `n` cells of row `z`.
pub open spec fn grid_row(cells: int, z: int, n: nat) -> Seq<u32>
    decreases n,
{
    if n == 0 {
        Seq::empty()
    } else {
        grid_row(cells, z, (n - 1) as nat) + grid_cell(cells, n - 1, z)
    }
}

/// The triangles of the first `n` rows of cells.
pub open spec fn grid_rows(cells: int, n: nat) -> Seq<u32>
    decreases n,
{
    if n == 0 {
        Seq::empty()
    } else {
        grid_rows(cells, (n - 1) as nat) + grid_row(cells, n - 1, cells as nat)
    }
}

/// Triangles of a square grid of `cells` by `cells` cells, row by row.
pub fn grid_indices(cells: u32) -> (r: Vec<u32>)
    requires
        (cells + 1) * (cells + 1) <= u32::MAX,
    ensures
        r@ == grid_rows(cells as int, cells as nat),
{
    let mut indices: Vec<u32> = Vec::new();
    let mut z: u32 = 0;
    while z < cells
        invariant
            z <= cells,
            (cells + 1) * (cells + 1) <= u32::MAX,
            indices@ == grid_rows(cells as int, z as nat),
        decreases cells - z,
    {
        let ghost before = indices@;
        let mut x: u32 = 0;
        while x < cells
            invariant
                x <= cells,
                z < cells,
                (cells + 1) * (cells + 1) <= u32::MAX,
                indices@ == before + grid_row(cells as int, z as int, x as nat),
            decreases cells - x,
        {
            assert(z * (cells + 1) + x + cells + 2 <= (cells + 1) * (cells + 1)) by (nonlinear_arith)
                requires
                    z < cells,
                    x < cells,
            {}
            let i0 = z * (cells + 1) + x;
            let i1 = i0 + 1;
            let i2 = i0 + (cells + 1);
            let i3 = i2 + 1;
            let ghost prev = indices@;
            indices.push(i0);
            indices.push(i2);
            indices.push(i1);
            indices.push(i1);
            indices.push(i2);
            indices.push(i3);
            assert(indices@ =~= prev + grid_cell(cells as int, x as int, z as int));
            assert(indices@ =~= before + grid_row(cells as int, z as int, (x + 1) as nat));
            x = x + 1;
        }
        z = z + 1;
    }
    indices
}

/// Position of sample `(x, z)` in a row-major height map of `width` by
/// `height` samples, coordinates beyond the edge clamped to it.
pub open spec fn sample_index(x: nat, z: nat, width: nat, height: nat) -> nat {
    let cx = if x < width { x } else { (width - 1) as nat };
    let cz = if z < height { z } else { (height - 1) as nat };
    cx + cz * width
}

pub fn heightmap_index(x: u32, z: u32, width: u32, height: u32) -> (r: usize)
    requires
        width > 0,
        height > 0,
        width * height <= usize::MAX,
    ensures
        r == sample_index(x as nat, z as nat, width as nat, height as nat),
        r < width * height,
{
    let cx = if x < width - 1 { x } else { width - 1 };
    let cz = if z < height - 1 { z } else { height - 1 };
    assert(cx + cz * width < width * height) by (nonlinear_arith)
        requires
            cx < width,
            cz < height,
    {}
    assert(cz * width <= width * height) by (nonlinear_arith)
        requires
            cz < height,
    {}
    cx as usize + cz as usize * width as usize
}

} // verus!
