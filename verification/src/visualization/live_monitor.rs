use vstd::prelude::*;

use crate::training::monitor::MonitoredMetric;

verus! {

/// Settings of the live training window.
pub struct GuiMonitorConfig {
    pub enabled: bool,
    pub width: usize,
    pub height: usize,
    pub delay_ms: u64,
    pub metrics: Vec<MonitoredMetric>,
}

impl GuiMonitorConfig {
    /// Settings from the values found in the environment (`None` where a
    /// variable is unset or unreadable): 1800 by 1120 pixels and 10 ms
    /// between frames unless given.
    pub fn from_settings(
        enabled: bool,
        width: Option<usize>,
        height: Option<usize>,
        delay_ms: Option<u64>,
        metrics: Vec<MonitoredMetric>,
    ) -> (r: Self)
        ensures
            r.enabled == enabled,
            r.width == match width {
                Some(w) => w,
                None => 1800,
            },
            r.height == match height {
                Some(h) => h,
                None => 1120,
            },
            r.delay_ms == match delay_ms {
                Some(d) => d,
                None => 10,
            },
            r.metrics@ == metrics@,
    {
        let width = match width {
            Some(w) => w,
            None => 1800,
        };
        let height = match height {
            Some(h) => h,
            None => 1120,
        };
        let delay_ms = match delay_ms {
            Some(d) => d,
            None => 10,
        };
        GuiMonitorConfig { enabled, width, height, delay_ms, metrics }
    }
}

/// A 0x00RRGGBB pixel.
pub open spec fn packed_pixel(r: u8, g: u8, b: u8) -> int {
    r * 65536 + g * 256 + b
}

/// Number of pixels that `sync_rgb_to_u32` writes: one per pixel slot and per
/// started RGB triple, whichever runs out first.
pub open spec fn synced_pixels(buffer_len: int, rgb_len: int) -> int {
    let triples = (rgb_len + 2) / 3;
    if buffer_len <= triples {
        buffer_len
    } else {
        triples
    }
}

fn pack_pixel(r: u8, g: u8, b: u8) -> (p: u32)
    ensures
        p == packed_pixel(r, g, b),
{
    let (r32, g32, b32) = (r as u32, g as u32, b as u32);
    assert(((r32 << 16u32) | (g32 << 8u32) | b32) == r32 * 65536 + g32 * 256 + b32) by (bit_vector)
        requires
            r32 < 256,
            g32 < 256,
            b32 < 256,
    ;
    (r32 << 16u32) | (g32 << 8u32) | b32
}

/// Copies an RGB byte buffer into 0x00RRGGBB pixels, triple by triple, as
/// far as both buffers reach; later pixels are left as they were.
pub fn sync_rgb_to_u32(rgb: &[u8], buffer: &mut Vec<u32>)
    requires
        rgb@.len() % 3 == 0 || old(buffer)@.len() <= rgb@.len() / 3,
    ensures
        final(buffer)@.len() == old(buffer)@.len(),
        forall|i: int|
            0 <= i < synced_pixels(old(buffer)@.len() as int, rgb@.len() as int)
                ==> #[trigger] final(buffer)@[i] == packed_pixel(rgb@[3 * i], rgb@[3 * i + 1], rgb@[3 * i + 2]),
        forall|i: int|
            synced_pixels(old(buffer)@.len() as int, rgb@.len() as int) <= i < old(buffer)@.len()
                ==> #[trigger] final(buffer)@[i] == old(buffer)@[i],
{
    let triples = rgb.len() / 3 + if rgb.len() % 3 == 0 {
        0
    } else {
        1
    };
    let n = if buffer.len() <= triples {
        buffer.len()
    } else {
        triples
    };
    assert(n == synced_pixels(old(buffer)@.len() as int, rgb@.len() as int));
    assert(n > 0 ==> 3 * (n - 1) + 2 < rgb@.len());
    let ghost start = buffer@;
    let rgb_len = rgb.len();
    let mut i: usize = 0;
    while i < n
        invariant
            n == synced_pixels(start.len() as int, rgb@.len() as int),
            n <= start.len(),
            n > 0 ==> 3 * (n - 1) + 2 < rgb@.len(),
            rgb_len == rgb@.len(),
            i <= n,
            buffer@.len() == start.len(),
            forall|k: int|
                0 <= k < i ==> #[trigger] buffer@[k] == packed_pixel(
                    rgb@[3 * k],
                    rgb@[3 * k + 1],
                    rgb@[3 * k + 2],
                ),
            forall|k: int| i <= k < start.len() ==> #[trigger] buffer@[k] == start[k],
        decreases n - i,
    {
        assert(3 * i + 2 < rgb@.len()) by {
            assert(i <= n - 1);
        }
        let rgb_idx = 3 * i;
        let p = pack_pixel(rgb[rgb_idx], rgb[rgb_idx + 1], rgb[rgb_idx + 2]);
        buffer.set(i, p);
        i = i + 1;
    }
}

/// Rows and columns of the panel grid of the live window: as many columns
/// as the ceiling of the square root of the panel count, and as many rows
/// as it takes to hold every panel.
pub fn panel_grid(panel_count: usize) -> (r: (usize, usize))
    requires
        panel_count > 0,
    ensures
        r.1 * r.1 >= panel_count,
        (r.1 - 1) * (r.1 - 1) < panel_count,
        r.0 * r.1 >= panel_count,
        (r.0 - 1) * r.1 < panel_count,
{
    let n = panel_count as u128;
    assert(n <= 0xffff_ffff_ffff_ffff);
    let mut c: u128 = 0;
    loop
        invariant
            n == panel_count,
            0 < n <= 0xffff_ffff_ffff_ffff,
            c <= n,
            c == 0 || (c - 1) * (c - 1) < n,
        ensures
            1 <= c <= n,
            c * c >= n,
            (c - 1) * (c - 1) < n,
        decreases n - c,
    {
        assert(c * c <= 0xffff_ffff_ffff_ffff * 0xffff_ffff_ffff_ffff) by (nonlinear_arith)
            requires
                c <= 0xffff_ffff_ffff_ffff,
        ;
        if c * c >= n {
            break;
        }
        assert(c < n) by (nonlinear_arith)
            requires
                c * c < n,
                c <= n,
        ;
        c = c + 1;
    }
    let cols = c as usize;
    let q = panel_count / cols;
    let m = panel_count % cols;
    proof {
        vstd::arithmetic::div_mod::lemma_fundamental_div_mod(panel_count as int, cols as int);
        if m != 0 {
            assert(q < panel_count) by (nonlinear_arith)
                requires
                    panel_count == cols * q + m,
                    0 < m < cols,
            ;
        }
    }
    let rows = if m == 0 {
        q
    } else {
        q + 1
    };
    proof {
        assert(rows * cols >= panel_count && (rows - 1) * cols < panel_count) by (nonlinear_arith)
            requires
                panel_count == cols * q + m,
                0 <= m < cols,
                rows == q + if m == 0 {
                    0int
                } else {
                    1int
                },
        ;
    }
    (rows, cols)
}

} // verus!
