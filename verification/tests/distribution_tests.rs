use stochasticsampling::distribution::Histogram;
use stochasticsampling::mesh::{CellIndex, GridSize};

fn grid(x: usize, y: usize, z: usize, phi: usize, theta: usize) -> GridSize {
    GridSize { x, y, z, phi, theta }
}

#[test]
fn distribution_new() {
    let g = grid(10, 10, 6, 1, 1);
    let h = Histogram::new(g).unwrap();
    assert_eq!(h.grid(), g);
    assert_eq!(h.len(), 10 * 10 * 6);
    assert!(h.counts().iter().all(|&c| c == 0));
}

#[test]
fn test_histogram_conserves_count() {
    let g = grid(5, 5, 1, 2, 1);
    let mut h = Histogram::new(g).unwrap();
    let n = 1000;
    // a deterministic ensemble spread over all cells
    let mut cells = Vec::with_capacity(n);
    for i in 0..n {
        cells.push(CellIndex {
            x: i % 5,
            y: (i / 5) % 5,
            z: 0,
            phi: (i / 25) % 2,
            theta: 0,
        });
    }
    h.sample_from(&cells);
    let sum: u64 = h.counts().iter().sum();
    assert_eq!(sum, n as u64);
}

#[test]
fn test_histogram_single_cell() {
    // box (1,1,1), grid (4,4,4,4,4): a particle at (0.5, 0.5, 0.5, 0, 0)
    // falls into the spatial cell (2,2,2) and nowhere else
    let g = grid(4, 4, 4, 4, 4);
    let mut h = Histogram::new(g).unwrap();
    let cell = CellIndex { x: 2, y: 2, z: 2, phi: 0, theta: 0 };
    h.sample_from(&vec![cell]);
    assert_eq!(h.count_at(&cell), 1);
    let sum: u64 = h.counts().iter().sum();
    assert_eq!(sum, 1);
    let flat = cell.flatten(&g);
    for (i, &c) in h.counts().iter().enumerate() {
        assert_eq!(c, if i == flat { 1 } else { 0 });
    }
}

#[test]
fn test_histogram_resample_resets() {
    let g = grid(5, 5, 1, 2, 1);
    let mut h = Histogram::new(g).unwrap();
    let mut cells = Vec::new();
    for i in 0..100 {
        cells.push(CellIndex { x: i % 5, y: 0, z: 0, phi: 0, theta: 0 });
    }
    h.sample_from(&cells);
    // a second sampling starts from zeroed bins
    let one = vec![CellIndex { x: 3, y: 1, z: 0, phi: 1, theta: 0 }];
    h.sample_from(&one);
    let sum: u64 = h.counts().iter().sum();
    assert_eq!(sum, 1);
    assert_eq!(h.count_at(&one[0]), 1);
}

#[test]
fn test_spatial_counts() {
    // summing out the angular axes: the marginal of the histogram
    let g = grid(2, 2, 1, 2, 2);
    let mut h = Histogram::new(g).unwrap();
    let cells = vec![
        CellIndex { x: 0, y: 0, z: 0, phi: 0, theta: 0 },
        CellIndex { x: 0, y: 0, z: 0, phi: 1, theta: 1 },
        CellIndex { x: 0, y: 1, z: 0, phi: 0, theta: 1 },
        CellIndex { x: 1, y: 1, z: 0, phi: 1, theta: 0 },
        CellIndex { x: 1, y: 1, z: 0, phi: 0, theta: 0 },
        CellIndex { x: 1, y: 1, z: 0, phi: 0, theta: 0 },
    ];
    h.sample_from(&cells);
    let marginal = h.spatial_counts();
    assert_eq!(marginal, vec![2, 1, 0, 3]);
    let total: u64 = marginal.iter().sum();
    assert_eq!(total, cells.len() as u64);
}

#[test]
fn test_density_normalization() {
    // scaling the counts by the inverse cell hypervolume and the box volume
    // keeps the integral of the density at the particle count
    let g = grid(5, 5, 1, 2, 1);
    let (lx, ly, lz) = (1.0f64, 1.0f64, 1.0f64);
    let gw = (
        lx / 5.,
        ly / 5.,
        lz / 1.,
        2. * std::f64::consts::PI / 2.,
        std::f64::consts::PI / 1.,
    );
    let vol = gw.0 * gw.1 * gw.2 * gw.3 * gw.4;
    let n = 1000usize;
    let mut cells = Vec::with_capacity(n);
    for i in 0..n {
        cells.push(CellIndex {
            x: i % 5,
            y: (i / 5) % 5,
            z: 0,
            phi: (i / 25) % 2,
            theta: 0,
        });
    }
    let mut h = Histogram::new(g).unwrap();
    h.sample_from(&cells);
    let boxvol = lx * ly * lz;
    let density: Vec<f64> = h.counts().iter().map(|&c| c as f64 / vol * boxvol).collect();
    let integral: f64 = density.iter().map(|d| d * vol / boxvol).sum();
    assert!(
        (integral - n as f64).abs() <= n as f64 * f64::EPSILON,
        "Sum is: {}, but expected: {}.",
        integral,
        n
    );
}

#[test]
fn test_histogram_additive() {
    // binning two ensembles together adds their bin counts
    let g = grid(3, 3, 1, 1, 1);
    let a: Vec<CellIndex> = (0..7)
        .map(|i| CellIndex { x: i % 3, y: 0, z: 0, phi: 0, theta: 0 })
        .collect();
    let b: Vec<CellIndex> = (0..5)
        .map(|i| CellIndex { x: 0, y: i % 3, z: 0, phi: 0, theta: 0 })
        .collect();
    let mut ha = Histogram::new(g).unwrap();
    ha.sample_from(&a);
    let mut hb = Histogram::new(g).unwrap();
    hb.sample_from(&b);
    let mut hab = Histogram::new(g).unwrap();
    let mut both = a.clone();
    both.extend_from_slice(&b);
    hab.sample_from(&both);
    for i in 0..hab.len() {
        assert_eq!(hab.counts()[i], ha.counts()[i] + hb.counts()[i]);
    }
}
