use vstd::prelude::*;
use crate::domain::dot::Dot;

verus! {

/// Why the edges of a frame can not be found.
#[derive(Debug, Clone, Copy, PartialEq, Eq, Structural)]
pub enum EdgeScanError {
    /// The pixel bytes end before a pixel that the scan reads.
    OutOfImage,
}

/// What the scan of one column has found so far: the row of the upper edge, the row of
/// the lower edge.
pub type ColumnHits = (Option<int>, Option<int>);

/// The pixel at `index` is brighter than the level; `None` when the bytes end before it.
pub open spec fn bright(data: Seq<u8>, index: int, level: int) -> Option<bool> {
    if 0 <= index < data.len() {
        Some(data[index] > level)
    } else {
        None
    }
}

/// One step `s` of the scan of column `x`: unless found already, row `s` from the top is
/// tried for the upper edge, then row `rows - 1 - s` from the bottom for the lower edge.
pub open spec fn column_step(
    data: Seq<u8>,
    rows: int,
    cols: int,
    x: int,
    level: int,
    s: int,
    hits: ColumnHits,
) -> Option<ColumnHits> {
    let upper = if hits.0 is Some {
        Some(hits.0)
    } else {
        match bright(data, s * cols + x, level) {
            Some(b) => Some(if b { Some(s) } else { None }),
            None => None,
        }
    };
    match upper {
        None => None,
        Some(up) => {
            let yl = rows - s - 1;
            if hits.1 is Some {
                Some((up, hits.1))
            } else {
                match bright(data, yl * cols + x, level) {
                    Some(b) => Some((up, if b { Some(yl) } else { None })),
                    None => None,
                }
            }
        },
    }
}

/// The scan of column `x` after `n` steps; it stops once both edges are found. `None`
/// when it reads past the end of the bytes.
pub open spec fn column_scan(
    data: Seq<u8>,
    rows: int,
    cols: int,
    x: int,
    level: int,
    n: int,
) -> Option<ColumnHits>
    decreases n,
{
    if n <= 0 {
        Some((None, None))
    } else {
        match column_scan(data, rows, cols, x, level, n - 1) {
            None => None,
            Some(hits) => {
                if hits.0 is Some && hits.1 is Some {
                    Some(hits)
                } else {
                    column_step(data, rows, cols, x, level, n - 1, hits)
                }
            },
        }
    }
}

/// The dot of column `x` at row `y`, if there is a row.
pub open spec fn dot_at(x: int, y: Option<int>) -> Seq<Dot<usize>> {
    match y {
        Some(r) => seq![Dot { x: x as usize, y: r as usize }],
        None => seq![],
    }
}

/// The upper and lower edges found on the first `n` columns, column by column; `None`
/// when the scan reads past the end of the bytes.
pub open spec fn edges_scan(
    data: Seq<u8>,
    rows: int,
    cols: int,
    level: int,
    n: int,
) -> Option<(Seq<Dot<usize>>, Seq<Dot<usize>>)>
    decreases n,
{
    if n <= 0 {
        Some((Seq::empty(), Seq::empty()))
    } else {
        match edges_scan(data, rows, cols, level, n - 1) {
            None => None,
            Some(edges) => match column_scan(data, rows, cols, n - 1, level, rows) {
                None => None,
                Some(hits) => Some((edges.0 + dot_at(n - 1, hits.0), edges.1 + dot_at(n - 1, hits.1))),
            },
        }
    }
}

/// Once the scan of a column has found both edges, further steps change nothing.
proof fn lemma_column_scan_done(data: Seq<u8>, rows: int, cols: int, x: int, level: int, n: int, m: int)
    requires
        n <= m,
        column_scan(data, rows, cols, x, level, n) matches Some(h) && h.0 is Some && h.1 is Some,
    ensures
        column_scan(data, rows, cols, x, level, m) == column_scan(data, rows, cols, x, level, n),
    decreases m - n,
{
    if n < m {
        lemma_column_scan_done(data, rows, cols, x, level, n, m - 1);
    }
}

/// Once the scan of a column has read past the bytes, it stays failed.
proof fn lemma_column_scan_fails(data: Seq<u8>, rows: int, cols: int, x: int, level: int, n: int, m: int)
    requires
        n <= m,
        column_scan(data, rows, cols, x, level, n) is None,
    ensures
        column_scan(data, rows, cols, x, level, m) is None,
    decreases m - n,
{
    if n < m {
        lemma_column_scan_fails(data, rows, cols, x, level, n, m - 1);
    }
}

/// Once the scan of the columns has failed, it stays failed.
proof fn lemma_edges_scan_fails(data: Seq<u8>, rows: int, cols: int, level: int, n: int, m: int)
    requires
        n <= m,
        edges_scan(data, rows, cols, level, n) is None,
    ensures
        edges_scan(data, rows, cols, level, m) is None,
    decreases m - n,
{
    if n < m {
        lemma_edges_scan_fails(data, rows, cols, level, n, m - 1);
    }
}

/// When the scan of column `x` fails after `n <= rows` steps, the whole scan fails.
proof fn lemma_scan_fails(data: Seq<u8>, rows: int, cols: int, x: int, level: int, n: int)
    requires
        0 <= x < cols,
        n <= rows,
        column_scan(data, rows, cols, x, level, n) is None,
        edges_scan(data, rows, cols, level, x) is Some,
    ensures
        edges_scan(data, rows, cols, level, cols) is None,
{
    lemma_column_scan_fails(data, rows, cols, x, level, n, rows);
    assert(edges_scan(data, rows, cols, level, x + 1) is None);
    lemma_edges_scan_fails(data, rows, cols, level, x + 1, cols);
}

/// The scan of the columns of a gray image for the pixels brighter than `level`.
fn scan_columns(data: &[u8], rows: i32, cols: i32, level: i16) -> (res: Result<
    (Vec<Dot<usize>>, Vec<Dot<usize>>),
    EdgeScanError,
>)
    requires
        rows > 0 && cols > 0 ==> rows * cols <= i32::MAX + 1,
    ensures
        res is Ok <==> edges_scan(data@, rows as int, cols as int, level as int, cols as int) is Some,
        res matches Ok(edges) ==> (edges.0@, edges.1@) == edges_scan(data@, rows as int, cols as int, level as int, cols as int).unwrap(),
        res matches Err(e) ==> e == EdgeScanError::OutOfImage,
{
    let mut upper_edge: Vec<Dot<usize>> = Vec::new();
    let mut lower_edge: Vec<Dot<usize>> = Vec::new();
    let mut x: i32 = 0;
    while x < cols
        invariant
            0 <= x,
            cols >= 0 ==> x <= cols,
            cols < 0 ==> x == 0,
            rows > 0 && cols > 0 ==> rows * cols <= i32::MAX + 1,
            edges_scan(data@, rows as int, cols as int, level as int, x as int) == Some((upper_edge@, lower_edge@)),
        decreases cols - x,
    {
        let mut upper: Option<i32> = None;
        let mut lower: Option<i32> = None;
        let mut y: i32 = 0;
        while y < rows && !(upper.is_some() && lower.is_some())
            invariant
                0 <= y,
                rows >= 0 ==> y <= rows,
                0 <= x < cols,
                rows > 0 && cols > 0 ==> rows * cols <= i32::MAX + 1,
                column_scan(data@, rows as int, cols as int, x as int, level as int, y as int) == Some((
                    match upper { Some(v) => Some(v as int), None => None::<int> },
                    match lower { Some(v) => Some(v as int), None => None::<int> },
                )),
                edges_scan(data@, rows as int, cols as int, level as int, x as int) == Some((upper_edge@, lower_edge@)),
                upper matches Some(v) ==> 0 <= v < rows,
                lower matches Some(v) ==> 0 <= v < rows,
            decreases rows - y,
        {
            proof {
                assert((y as int) * (cols as int) + (x as int) <= (rows as int) * (cols as int) - 1) by (nonlinear_arith)
                    requires 0 <= y < rows, 0 <= x < cols;
                assert(((rows - y - 1) as int) * (cols as int) + (x as int) <= (rows as int) * (cols as int) - 1) by (nonlinear_arith)
                    requires 0 <= y < rows, 0 <= x < cols;
                assert(0 <= (y as int) * (cols as int)) by (nonlinear_arith)
                    requires 0 <= y, 0 <= cols;
                assert(0 <= ((rows - y - 1) as int) * (cols as int)) by (nonlinear_arith)
                    requires 0 <= y < rows, 0 <= cols;
            }
            if upper.is_none() {
                let index = (y * cols + x) as usize;
                if index >= data.len() {
                    proof { lemma_scan_fails(data@, rows as int, cols as int, x as int, level as int, y as int + 1); }
                    return Err(EdgeScanError::OutOfImage);
                }
                if data[index] as i16 > level {
                    upper = Some(y);
                }
            }
            let yl = rows - y - 1;
            if lower.is_none() {
                let index = (yl * cols + x) as usize;
                if index >= data.len() {
                    proof { lemma_scan_fails(data@, rows as int, cols as int, x as int, level as int, y as int + 1); }
                    return Err(EdgeScanError::OutOfImage);
                }
                if data[index] as i16 > level {
                    lower = Some(yl);
                }
            }
            y += 1;
        }
        proof {
            if y < rows {
                lemma_column_scan_done(data@, rows as int, cols as int, x as int, level as int, y as int, rows as int);
            }
        }
        match upper {
            Some(r) => upper_edge.push(Dot { x: x as usize, y: r as usize }),
            None => {},
        }
        match lower {
            Some(r) => lower_edge.push(Dot { x: x as usize, y: r as usize }),
            None => {},
        }
        x += 1;
    }
    proof {
        if cols < 0 {
            assert(edges_scan(data@, rows as int, cols as int, level as int, cols as int) == Some((Seq::<Dot<usize>>::empty(), Seq::<Dot<usize>>::empty())));
            assert(x == 0);
            assert(edges_scan(data@, rows as int, cols as int, level as int, x as int) == Some((Seq::<Dot<usize>>::empty(), Seq::<Dot<usize>>::empty())));
            assert(edges_scan(data@, rows as int, cols as int, level as int, cols as int) == Some((upper_edge@, lower_edge@)));
        } else {
            assert(x == cols);
            assert(edges_scan(data@, rows as int, cols as int, level as int, cols as int) == Some((upper_edge@, lower_edge@)));
        }
    }
    Ok((upper_edge, lower_edge))
}

/// The first row of each column of a gray image, scanned from the top, and the first
/// row scanned from the bottom, whose pixel is brighter than `threshold`. The pixels are
/// `data`, row after row, `cols` pixels a row. A column without such a pixel has no dot.
/// An error when the scan reads a pixel past the end of `data`.
pub fn scan_edges(data: &[u8], rows: i32, cols: i32, threshold: u8) -> (res: Result<
    (Vec<Dot<usize>>, Vec<Dot<usize>>),
    EdgeScanError,
>)
    requires
        rows > 0 && cols > 0 ==> rows * cols <= i32::MAX + 1,
    ensures
        res is Ok <==> edges_scan(data@, rows as int, cols as int, threshold as int, cols as int) is Some,
        res matches Ok(edges) ==> (edges.0@, edges.1@) == edges_scan(data@, rows as int, cols as int, threshold as int, cols as int).unwrap(),
        res matches Err(e) ==> e == EdgeScanError::OutOfImage,
{
    scan_columns(data, rows, cols, threshold as i16)
}

/// As `scan_edges`, for the pixels at least as bright as `threshold`: those brighter
/// than `threshold - 1`.
pub fn scan_edges_from(data: &[u8], rows: i32, cols: i32, threshold: u8) -> (res: Result<
    (Vec<Dot<usize>>, Vec<Dot<usize>>),
    EdgeScanError,
>)
    requires
        rows > 0 && cols > 0 ==> rows * cols <= i32::MAX + 1,
    ensures
        res is Ok <==> edges_scan(data@, rows as int, cols as int, threshold - 1, cols as int) is Some,
        res matches Ok(edges) ==> (edges.0@, edges.1@) == edges_scan(data@, rows as int, cols as int, threshold - 1, cols as int).unwrap(),
        res matches Err(e) ==> e == EdgeScanError::OutOfImage,
{
    scan_columns(data, rows, cols, threshold as i16 - 1)
}

/// The scan of a column finds the first bright row from the top and the first bright row
/// from the bottom: every row it passed over is dark, and a row it did not find an edge on
/// was dark all the way it looked.
pub proof fn lemma_column_scan_first(data: Seq<u8>, rows: int, cols: int, x: int, level: int, n: int)
    requires
        0 <= n <= rows,
        column_scan(data, rows, cols, x, level, n) is Some,
    ensures
        ({
            let h = column_scan(data, rows, cols, x, level, n).unwrap();
            &&& h.0 matches Some(r) ==> 0 <= r < n && bright(data, r * cols + x, level) == Some(true)
                && forall|q: int| 0 <= q < r ==> #[trigger] bright(data, q * cols + x, level) == Some(false)
            &&& h.0 is None ==> forall|q: int| 0 <= q < n ==> #[trigger] bright(data, q * cols + x, level) == Some(false)
            &&& h.1 matches Some(r) ==> rows - n <= r < rows && bright(data, r * cols + x, level) == Some(true)
                && forall|q: int| r < q < rows ==> #[trigger] bright(data, q * cols + x, level) == Some(false)
            &&& h.1 is None ==> forall|q: int| rows - n <= q < rows ==> #[trigger] bright(data, q * cols + x, level) == Some(false)
        }),
    decreases n,
{
    if n > 0 {
        let prev = column_scan(data, rows, cols, x, level, n - 1);
        if prev is None {
            lemma_column_scan_fails(data, rows, cols, x, level, n - 1, n);
        } else {
            lemma_column_scan_first(data, rows, cols, x, level, n - 1);
        }
    }
}

/// The scan never fails on a whole image: when the bytes hold all `rows * cols` pixels,
/// every column is scanned to the end.
pub proof fn lemma_whole_image_scans(data: Seq<u8>, rows: int, cols: int, level: int, n: int)
    requires
        0 <= rows,
        0 <= cols,
        n <= cols,
        rows * cols <= data.len(),
    ensures
        edges_scan(data, rows, cols, level, n) is Some,
    decreases n,
{
    if n > 0 {
        lemma_whole_image_scans(data, rows, cols, level, n - 1);
        lemma_whole_column_scans(data, rows, cols, n - 1, level, rows);
    }
}

/// Every step of the scan of a column of a whole image reads within the bytes.
proof fn lemma_whole_column_scans(data: Seq<u8>, rows: int, cols: int, x: int, level: int, n: int)
    requires
        0 <= x < cols,
        0 <= n <= rows,
        rows * cols <= data.len(),
    ensures
        column_scan(data, rows, cols, x, level, n) is Some,
    decreases n,
{
    if n > 0 {
        lemma_whole_column_scans(data, rows, cols, x, level, n - 1);
        let s = n - 1;
        assert(0 <= s * cols + x < rows * cols) by (nonlinear_arith)
            requires 0 <= s < rows, 0 <= x < cols;
        assert(0 <= (rows - s - 1) * cols + x < rows * cols) by (nonlinear_arith)
            requires 0 <= s < rows, 0 <= x < cols;
    }
}

/// The edges of a frame depend on its pixels alone: two byte buffers that both hold the
/// `rows * cols` pixels and agree on them give the same edges, at every level.
pub proof fn lemma_edges_of_same_pixels(d1: Seq<u8>, d2: Seq<u8>, rows: int, cols: int, level: int, n: int)
    requires
        0 <= rows,
        0 <= cols,
        n <= cols,
        rows * cols <= d1.len(),
        rows * cols <= d2.len(),
        d1.take(rows * cols) == d2.take(rows * cols),
    ensures
        edges_scan(d1, rows, cols, level, n) == edges_scan(d2, rows, cols, level, n),
    decreases n,
{
    if n > 0 {
        lemma_edges_of_same_pixels(d1, d2, rows, cols, level, n - 1);
        lemma_column_of_same_pixels(d1, d2, rows, cols, n - 1, level, rows);
    }
}

/// The scan of a column reads only pixels of the image.
proof fn lemma_column_of_same_pixels(d1: Seq<u8>, d2: Seq<u8>, rows: int, cols: int, x: int, level: int, n: int)
    requires
        0 <= x < cols,
        0 <= n <= rows,
        rows * cols <= d1.len(),
        rows * cols <= d2.len(),
        d1.take(rows * cols) == d2.take(rows * cols),
    ensures
        column_scan(d1, rows, cols, x, level, n) == column_scan(d2, rows, cols, x, level, n),
    decreases n,
{
    if n > 0 {
        lemma_column_of_same_pixels(d1, d2, rows, cols, x, level, n - 1);
        let s = n - 1;
        let top = s * cols + x;
        let bottom = (rows - s - 1) * cols + x;
        assert(0 <= top < rows * cols) by (nonlinear_arith)
            requires 0 <= s < rows, 0 <= x < cols, top == s * cols + x;
        assert(0 <= bottom < rows * cols) by (nonlinear_arith)
            requires 0 <= s < rows, 0 <= x < cols, bottom == (rows - s - 1) * cols + x;
        assert(d1[top] == d1.take(rows * cols)[top]);
        assert(d2[top] == d2.take(rows * cols)[top]);
        assert(d1[bottom] == d1.take(rows * cols)[bottom]);
        assert(d2[bottom] == d2.take(rows * cols)[bottom]);
    }
}

/// The dots of each edge come column after column, from left to right.
pub proof fn lemma_edges_left_to_right(data: Seq<u8>, rows: int, cols: int, level: int, n: int)
    requires
        edges_scan(data, rows, cols, level, n) is Some,
        n <= usize::MAX,
    ensures
        forall|i: int, j: int| 0 <= i < j < edges_scan(data, rows, cols, level, n).unwrap().0.len() ==>
            edges_scan(data, rows, cols, level, n).unwrap().0[i].x < edges_scan(data, rows, cols, level, n).unwrap().0[j].x,
        forall|i: int, j: int| 0 <= i < j < edges_scan(data, rows, cols, level, n).unwrap().1.len() ==>
            edges_scan(data, rows, cols, level, n).unwrap().1[i].x < edges_scan(data, rows, cols, level, n).unwrap().1[j].x,
        forall|i: int| 0 <= i < edges_scan(data, rows, cols, level, n).unwrap().0.len() ==>
            edges_scan(data, rows, cols, level, n).unwrap().0[i].x < n,
        forall|i: int| 0 <= i < edges_scan(data, rows, cols, level, n).unwrap().1.len() ==>
            edges_scan(data, rows, cols, level, n).unwrap().1[i].x < n,
    decreases n,
{
    if n > 0 {
        lemma_edges_left_to_right(data, rows, cols, level, n - 1);
    }
}

} // verus!
