use vstd::arithmetic::div_mod::{lemma_fundamental_div_mod, lemma_fundamental_div_mod_converse};
use vstd::prelude::*;

verus! {

/// `tasks` lists the pixels of a `width` by `height` image in row-major
/// order: entry `i` is column `i % width` of row `i / width`.
pub open spec fn is_row_major(width: nat, height: nat, tasks: Seq<(u32, u32)>) -> bool {
    &&& tasks.len() == width * height
    &&& forall|i: int|
        0 <= i < tasks.len() ==> #[trigger] tasks[i].0 as int == i % (width as int) && tasks[i].1
            as int == i / (width as int)
}

/// Position of pixel `(x, y)` in row-major order.
pub open spec fn pixel_index(width: nat, x: nat, y: nat) -> int {
    (y * width + x) as int
}

/// The pixel coordinates of a `width` by `height` image, rows from top to
/// bottom and each row from left to right.
pub fn pixel_tasks(width: u32, height: u32) -> (r: Vec<(u32, u32)>)
    requires
        width as nat * height as nat <= usize::MAX,
    ensures
        is_row_major(width as nat, height as nat, r@),
{
    let mut tasks: Vec<(u32, u32)> = Vec::new();
    let mut y: u32 = 0;
    while y < height
        invariant
            y <= height,
            width as nat * height as nat <= usize::MAX,
            tasks.len() == y as nat * width as nat,
            forall|i: int|
                0 <= i < tasks.len() ==> #[trigger] tasks@[i].0 as int == i % (width as int)
                    && tasks@[i].1 as int == i / (width as int),
        decreases height - y,
    {
        let mut x: u32 = 0;
        while x < width
            invariant
                x <= width,
                y < height,
                width as nat * height as nat <= usize::MAX,
                tasks.len() == y as nat * width as nat + x as nat,
                forall|i: int|
                    0 <= i < tasks.len() ==> #[trigger] tasks@[i].0 as int == i % (width as int)
                        && tasks@[i].1 as int == i / (width as int),
            decreases width - x,
        {
            proof {
                lemma_fundamental_div_mod_converse(
                    tasks.len() as int,
                    width as int,
                    y as int,
                    x as int,
                );
                assert((y as nat * width as nat + x as nat) < (width as nat * height as nat))
                    by (nonlinear_arith)
                    requires
                        x < width,
                        y < height,
                ;
            }
            tasks.push((x, y));
            x = x + 1;
        }
        proof {
            assert((y + 1) as nat * width as nat == y as nat * width as nat + width as nat)
                by (nonlinear_arith);
        }
        y = y + 1;
    }
    proof {
        assert(height as nat * width as nat == width as nat * height as nat) by (nonlinear_arith);
    }
    tasks
}

/// Every pixel of the image is listed exactly once: pixel `(x, y)` stands at
/// index `y * width + x`, each index holds the pixel whose position it is, and
/// every listed coordinate lies inside the image.
pub proof fn lemma_each_pixel_once(width: nat, height: nat, tasks: Seq<(u32, u32)>)
    requires
        is_row_major(width, height, tasks),
    ensures
        forall|i: int|
            0 <= i < tasks.len() ==> (#[trigger] tasks[i]).0 < width && tasks[i].1 < height,
        forall|x: u32, y: u32|
            x < width && y < height ==> 0 <= #[trigger] pixel_index(width, x as nat, y as nat)
                < tasks.len() && tasks[pixel_index(width, x as nat, y as nat)] == (x, y),
        forall|i: int|
            0 <= i < tasks.len() ==> i == pixel_index(
                width,
                (#[trigger] tasks[i]).0 as nat,
                tasks[i].1 as nat,
            ),
{
    assert forall|i: int| 0 <= i < tasks.len() implies (#[trigger] tasks[i]).0 < width
        && tasks[i].1 < height by {
        if width == 0 {
            assert(width * height == 0) by (nonlinear_arith)
                requires
                    width == 0,
            ;
        }
        lemma_fundamental_div_mod(i, width as int);
        assert(i / (width as int) < height) by (nonlinear_arith)
            requires
                i == (width as int) * (i / (width as int)) + i % (width as int),
                0 <= i % (width as int),
                i < width * height,
        ;
    }
    assert forall|x: u32, y: u32| x < width && y < height implies 0 <= #[trigger] pixel_index(
        width,
        x as nat,
        y as nat,
    ) < tasks.len() && tasks[pixel_index(width, x as nat, y as nat)] == (x, y) by {
        let i = y * width + x;
        assert(i < width * height) by (nonlinear_arith)
            requires
                x < width,
                y < height,
                i == y * width + x,
        ;
        lemma_fundamental_div_mod_converse(i as int, width as int, y as int, x as int);
        assert(tasks[i as int].0 as int == i % (width as int));
    }
    assert forall|i: int| 0 <= i < tasks.len() implies i == pixel_index(
        width,
        (#[trigger] tasks[i]).0 as nat,
        tasks[i].1 as nat,
    ) by {
        if width == 0 {
            assert(width * height == 0) by (nonlinear_arith)
                requires
                    width == 0,
            ;
        }
        lemma_fundamental_div_mod(i, width as int);
        assert((width as int) * (i / (width as int)) == (i / (width as int)) * (width as int))
            by (nonlinear_arith);
    }
}

} // verus!
