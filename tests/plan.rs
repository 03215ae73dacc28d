use approx::AbsDiffEq;
use marlu::constants::MWA_LAT_RAD;
use mwa_hyperbeam::boundary::BoundaryError;
use mwa_hyperbeam::dedup::TileConfig;
use mwa_hyperbeam::jones::reorder_all;
use mwa_hyperbeam::plan::{cpu_batch, snap_freqs, tiles_from_rows, GpuPlan};

// Spacing of the frequencies that the stand-in beam model holds.
const FREQ_STEP: u64 = 1_280_000;

type J = [(f64, f64); 4];

fn closest(f: u32) -> u32 {
    (((f as u64 + FREQ_STEP / 2) / FREQ_STEP) * FREQ_STEP) as u32
}

struct Coeffs {
    delays: Vec<u32>,
    amps: Vec<f64>,
    freq: u32,
    norm: f64,
}

// A stand-in for the beam model: a sum over dipoles of gain-weighted phasors.
fn raw_response(delays: &[u32], amps: &[f64], freq: u32, az: f64, za: f64) -> J {
    let mut j = [(0.0, 0.0); 4];
    for d in 0..16 {
        let ax = amps[d];
        let ay = if amps.len() == 32 { amps[d + 16] } else { amps[d] };
        let phase = delays[d] as f64 * za.sin() * freq as f64 * 1e-9 + d as f64 * az;
        j[0].0 += ax * phase.cos();
        j[0].1 += ax * phase.sin();
        j[1].0 += 0.5 * ax * (phase + az).cos();
        j[2].1 += 0.5 * ay * (phase - za).sin();
        j[3].0 += ay * (phase + za).cos();
        j[3].1 -= ay * phase.sin();
    }
    j
}

fn coeffs(t: &TileConfig, f: u32, norm_to_zenith: bool) -> Result<Coeffs, String> {
    let amps: Vec<f64> = t.amp_bits.iter().map(|b| f64::from_bits(*b)).collect();
    let mut norm = 1.0;
    if norm_to_zenith {
        let z = raw_response(&t.delays, &amps, f, 0.0, 0.0);
        let m = z.iter().map(|c| c.0.hypot(c.1)).fold(0.0, f64::max);
        if m > 0.0 {
            norm = m;
        }
    }
    Ok(Coeffs { delays: t.delays.clone(), amps, freq: f, norm })
}

fn rotate(j: J, az: f64, lat: Option<f64>) -> J {
    match lat {
        None => j,
        Some(l) => {
            let (s, c) = (az.sin() * l.cos()).atan2(l.sin()).sin_cos();
            let mix = |a: (f64, f64), b: (f64, f64)| (c * a.0 - s * b.0, c * a.1 - s * b.1);
            [mix(j[0], j[1]), mix(j[1], j[0]), mix(j[2], j[3]), mix(j[3], j[2])]
        }
    }
}

fn respond(c: &Coeffs, az: &[f64], za: &[f64], lat: Option<f64>, iau: bool) -> Vec<J> {
    let mut out: Vec<J> = az
        .iter()
        .zip(za)
        .map(|(a, z)| {
            let j = raw_response(&c.delays, &c.amps, c.freq, *a, *z);
            let j = j.map(|e| (e.0 / c.norm, e.1 / c.norm));
            rotate(j, *a, lat)
        })
        .collect();
    if iau {
        reorder_all(&mut out);
    }
    out
}

fn directions(n: usize) -> (Vec<f64>, Vec<f64>) {
    (0..n).map(|i| (0.45 + i as f64 / 10000.0, 0.45 + i as f64 / 10000.0)).unzip()
}

fn rows(delays: &[[u32; 16]], amps: &[[f64; 16]]) -> Vec<TileConfig> {
    let d: Vec<u32> = delays.iter().flatten().copied().collect();
    let a: Vec<u64> = amps.iter().flatten().map(|x| x.to_bits()).collect();
    tiles_from_rows(&d, &a, delays.len(), 16).unwrap()
}

struct Run {
    plan: GpuPlan,
    gpu: Vec<Vec<Vec<J>>>,
    cpu: Vec<Vec<Vec<J>>>,
}

fn run(freqs: &[u32], tiles: &Vec<TileConfig>, norm: bool, az: &[f64], za: &[f64], lat: Option<f64>, iau: bool) -> Run {
    let freqs = snap_freqs(&freqs.to_vec(), closest);
    let plan = GpuPlan::new(&freqs, tiles, norm).unwrap();
    let blocks = plan.prepare_blocks(|t: &TileConfig, f: u32| coeffs(t, f, plan.norm_to_zenith())).unwrap();
    let unique: Vec<Vec<Vec<J>>> = blocks
        .iter()
        .map(|row| row.iter().map(|c| respond(c, az, za, lat, iau)).collect())
        .collect();
    let gpu = plan.expand(&unique);
    let cpu = cpu_batch(tiles, &freqs, |t: &TileConfig, f: u32| {
        coeffs(t, f, norm).map(|c| respond(&c, az, za, lat, iau))
    })
    .unwrap();
    Run { plan, gpu, cpu }
}

fn assert_close(a: &Vec<Vec<Vec<J>>>, b: &Vec<Vec<Vec<J>>>, eps: f64) {
    assert_eq!(a.len(), b.len());
    for (ra, rb) in a.iter().zip(b) {
        assert_eq!(ra.len(), rb.len());
        for (ba, bb) in ra.iter().zip(rb) {
            assert_eq!(ba.len(), bb.len());
            for (ja, jb) in ba.iter().zip(bb) {
                for k in 0..4 {
                    assert!(ja[k].0.abs_diff_eq(&jb[k].0, eps), "{:?} != {:?}", ja, jb);
                    assert!(ja[k].1.abs_diff_eq(&jb[k].1, eps), "{:?} != {:?}", ja, jb);
                }
            }
        }
    }
}

const DELAYS: [u32; 16] = [3, 2, 1, 0, 3, 2, 1, 0, 3, 2, 1, 0, 3, 2, 1, 0];
const ONES: [f64; 16] = [1.0; 16];

fn single_tile_case(norm: bool, lat: Option<f64>, iau: bool) {
    let freqs = [150_000_000u32];
    let tiles = rows(&[DELAYS], &[ONES]);
    let (az, za) = directions(1025);
    let r = run(&freqs, &tiles, norm, &az, &za, lat, iau);
    assert_eq!(r.plan.num_coeffs(), 1);
    assert_eq!(r.plan.num_unique_tiles(), 1);
    assert_eq!(r.plan.num_unique_freqs(), 1);
    assert_close(&r.gpu, &r.cpu, 1e-15);
}

#[test]
fn test_cuda_calc_jones_no_norm() {
    single_tile_case(false, None, false);
}

#[test]
fn test_cuda_calc_jones_w_norm() {
    single_tile_case(true, None, false);
}

#[test]
fn test_cuda_calc_jones_w_norm_and_parallactic() {
    single_tile_case(true, Some(MWA_LAT_RAD), true);
}

fn dedup_case(norm: bool) {
    let freqs = [150_000_000u32, 200_000_000, 250_000_000, 150_000_000, 200_000_000, 250_000_001];
    let mut dead = DELAYS;
    dead[0] = 32;
    let mut one_off = ONES;
    one_off[0] = 0.0;
    let tiles = rows(&[DELAYS, dead, DELAYS, DELAYS], &[ONES, ONES, one_off, ONES]);
    let (az, za) = directions(1025);
    let r = run(&freqs, &tiles, norm, &az, &za, None, false);
    assert_eq!(r.plan.num_coeffs(), 9);
    assert_eq!(r.plan.num_unique_tiles(), 3);
    assert_eq!(r.plan.num_unique_freqs(), 3);
    assert_eq!(r.plan.tile_map(), &vec![0, 1, 2, 0]);
    assert_eq!(r.plan.freq_map(), &vec![0, 1, 2, 0, 1, 2]);
    assert_close(&r.gpu, &r.cpu, 1e-15);
}

#[test]
fn test_cuda_calc_jones_deduplication() {
    dedup_case(false);
}

#[test]
fn test_cuda_calc_jones_deduplication_w_norm() {
    dedup_case(true);
}

#[test]
fn test_cuda_calc_jones_no_amps() {
    let freqs: Vec<u32> = [50e6, 75e6, 100e6, 125e6, 150e6, 175e6, 200e6].into_iter().map(|f| f as u32).collect();
    let tiles = rows(&[DELAYS, DELAYS], &[ONES, [0.0; 16]]);
    let (az, za) = directions(1025);
    let r = run(&freqs, &tiles, false, &az, &za, None, false);
    assert_eq!(r.plan.num_coeffs(), 14);
    assert_eq!(r.plan.num_unique_tiles(), 2);
    assert_eq!(r.plan.num_unique_freqs(), 7);
    assert_close(&r.gpu, &r.cpu, 1e-15);
    // The results for the tile without gains are all zero.
    assert!(r.gpu[1].iter().flatten().all(|j| j.iter().all(|c| c.0 == 0.0 && c.1 == 0.0)));
    // The results for the other tile are at least somewhere non-zero.
    assert!(r.gpu[0].iter().flatten().any(|j| j.iter().any(|c| c.0 != 0.0 || c.1 != 0.0)));
}

#[test]
fn test_cuda_calc_jones_iau_order() {
    let freqs = [150_000_000u32];
    let tiles = rows(&[DELAYS], &[ONES]);
    let (az, za) = (vec![0.45 / 10000.0], vec![0.45 / 10000.0]);
    let iau = run(&freqs, &tiles, false, &az, &za, Some(MWA_LAT_RAD), true);
    let not_iau = run(&freqs, &tiles, false, &az, &za, Some(MWA_LAT_RAD), false);
    assert_eq!(iau.plan.num_coeffs(), 1);
    let j_iau = iau.gpu[0][0][0];
    let j_not_iau = not_iau.gpu[0][0][0];
    for k in 0..4 {
        assert_ne!(j_iau[k], j_not_iau[k]);
    }
    assert_eq!(j_iau[0], j_not_iau[3]);
    assert_eq!(j_iau[1], j_not_iau[2]);
    assert_eq!(j_iau[2], j_not_iau[1]);
    assert_eq!(j_iau[3], j_not_iau[0]);
}

#[test]
fn tiles_from_rows_rejects_bad_shapes() {
    let d: Vec<u32> = DELAYS.repeat(2);
    let a: Vec<u64> = [1.0f64; 32].iter().map(|x| x.to_bits()).collect();
    assert!(tiles_from_rows(&d, &a, 2, 16).is_ok());
    assert_eq!(tiles_from_rows(&d, &a, 2, 20).err(), Some(BoundaryError::NumAmps));
    assert_eq!(tiles_from_rows(&d, &a, 3, 16).err(), Some(BoundaryError::ArraySize));
    assert_eq!(tiles_from_rows(&d, &a, 2, 32).err(), Some(BoundaryError::ArraySize));
    let one = tiles_from_rows(&DELAYS.to_vec(), &a, 1, 32).unwrap();
    assert_eq!(one.len(), 1);
    assert_eq!(one[0].amp_bits.len(), 32);
    assert_eq!(one[0].delays, DELAYS.to_vec());
}

#[test]
fn snap_freqs_applies_closest() {
    let f = snap_freqs(&vec![250_000_000, 250_000_001, 100], closest);
    assert_eq!(f, vec![249_600_000, 249_600_000, 0]);
}

#[test]
fn prepare_blocks_stops_at_first_failure() {
    let tiles = rows(&[DELAYS], &[ONES]);
    let plan = GpuPlan::new(&vec![1, 2, 3], &tiles, false).unwrap();
    let mut calls = std::cell::Cell::new(0);
    let r: Result<Vec<Vec<u32>>, u32> = plan.prepare_blocks(|_t: &TileConfig, f: u32| {
        calls.set(calls.get() + 1);
        if f == 2 { Err(f) } else { Ok(f) }
    });
    assert_eq!(r, Err(2));
    assert_eq!(*calls.get_mut(), 2);
}

#[test]
fn expand_follows_index_maps() {
    let mut other = DELAYS;
    other[5] = 9;
    let tiles = rows(&[other, DELAYS, other], &[ONES, ONES, ONES]);
    let plan = GpuPlan::new(&vec![10, 20, 10, 10], &tiles, true).unwrap();
    assert!(plan.norm_to_zenith());
    assert_eq!(plan.unique_freqs(), &vec![10, 20]);
    assert_eq!(plan.unique_tiles().len(), 2);
    let unique = vec![
        vec![vec![1u8, 2], vec![3, 4]],
        vec![vec![5, 6], vec![7, 8]],
    ];
    let e = plan.expand(&unique);
    assert_eq!(e.len(), 3);
    assert_eq!(e[0], vec![vec![1, 2], vec![3, 4], vec![1, 2], vec![1, 2]]);
    assert_eq!(e[1], vec![vec![5, 6], vec![7, 8], vec![5, 6], vec![5, 6]]);
    assert_eq!(e[2], e[0]);
}

#[test]
fn cpu_batch_reports_failure() {
    let tiles = rows(&[DELAYS, DELAYS], &[ONES, ONES]);
    let ok = cpu_batch(&tiles, &vec![1, 2], |_t: &TileConfig, f: u32| Ok::<Vec<u32>, String>(vec![f, f]));
    assert_eq!(ok.unwrap(), vec![vec![vec![1, 1], vec![2, 2]], vec![vec![1, 1], vec![2, 2]]]);
    let bad = cpu_batch(&tiles, &vec![1, 2], |_t: &TileConfig, f: u32| {
        if f == 2 { Err(format!("no coefficients at {}", f)) } else { Ok(vec![f]) }
    });
    assert_eq!(bad.err(), Some("no coefficients at 2".to_string()));
}
