//! The textures that meshes are painted with.
//!
//! The presentation buffer is a software target, so textures live here too: a
//! whole one is set, a part of one is patched, and one that is no longer needed
//! is freed.

use std::collections::HashMap;

use vstd::prelude::*;

verus! {

broadcast use vstd::std_specs::hash::group_hash_axioms;

/// A picture to sample from, row major, a word per pixel.
#[derive(Debug, PartialEq, Eq)]
pub struct Texture {
    pub width: usize,
    pub height: usize,
    pub pixels: Vec<u32>,
}

/// The pixel of a patch, or of what it is put on.
pub open spec fn patched_at(
    old: Seq<u32>,
    width: int,
    patch: Seq<u32>,
    at: (int, int),
    size: (int, int),
    x: int,
    y: int,
) -> u32 {
    if at.0 <= x < at.0 + size.0 && at.1 <= y < at.1 + size.1 {
        patch[(y - at.1) * size.0 + (x - at.0)]
    } else {
        old[y * width + x]
    }
}

proof fn lemma_in_bounds(x: int, y: int, width: int, height: int)
    requires
        0 <= x < width,
        0 <= y < height,
    ensures
        0 <= y * width + x < width * height,
{
    assert(0 <= y * width && y * width + width <= width * height) by (nonlinear_arith)
        requires
            0 <= y < height,
            0 <= width,
    ;
}

proof fn lemma_one_place(x: int, y: int, u: int, v: int, width: int)
    requires
        0 <= x < width,
        0 <= u < width,
        y * width + x == v * width + u,
    ensures
        x == u,
        y == v,
{
    assert(y == v) by (nonlinear_arith)
        requires
            0 <= x < width,
            0 <= u < width,
            y * width + x == v * width + u,
    ;
}

impl Texture {
    /// There is a word per pixel.
    pub open spec fn wf(self) -> bool {
        self.pixels@.len() == self.width * self.height
    }

    /// The pixel at a place.
    pub open spec fn at(self, x: int, y: int) -> u32 {
        self.pixels@[y * self.width + x]
    }

    /// What a patch does to a texture.
    pub open spec fn patched(self, after: Texture, x: usize, y: usize, width: usize, height: usize, patch: Seq<u32>) -> bool {
        &&& after.wf()
        &&& after.width == self.width
        &&& after.height == self.height
        &&& forall|px: int, py: int|
                #![trigger after.at(px, py)]
                0 <= px < self.width && 0 <= py < self.height ==> after.at(px, py)
                    == patched_at(
                    self.pixels@,
                    self.width as int,
                    patch,
                    (x as int, y as int),
                    (width as int, height as int),
                    px,
                    py,
                )
    }

    /// Put a patch on the texture.
    pub fn patch(&mut self, x: usize, y: usize, width: usize, height: usize, patch: &Vec<u32>)
        requires
            old(self).wf(),
            x + width <= old(self).width,
            y + height <= old(self).height,
            patch@.len() == width * height,
        ensures
            final(self).wf(),
            final(self).width == old(self).width,
            final(self).height == old(self).height,
            forall|px: int, py: int|
                #![trigger final(self).at(px, py)]
                0 <= px < old(self).width && 0 <= py < old(self).height ==> final(self).at(px, py)
                    == patched_at(
                    old(self).pixels@,
                    old(self).width as int,
                    patch@,
                    (x as int, y as int),
                    (width as int, height as int),
                    px,
                    py,
                ),
            old(self).patched(*final(self), x, y, width, height, patch@),
    {
        let ghost was = self.pixels@;
        let full: usize = self.pixels.len();
        let mut row: usize = 0;
        while row < height
            invariant
                row <= height,
                full == self.pixels.len(),
                was.len() == full,
                self.wf(),
                self.width == old(self).width,
                self.height == old(self).height,
                was == old(self).pixels@,
                x + width <= self.width,
                y + height <= self.height,
                patch@.len() == width * height,
                forall|px: int, py: int|
                    #![trigger self.at(px, py)]
                    0 <= px < self.width && 0 <= py < self.height ==> self.at(px, py) == patched_at(
                        was,
                        self.width as int,
                        patch@,
                        (x as int, y as int),
                        (width as int, row as int),
                        px,
                        py,
                    ),
            decreases height - row,
        {
            let mut col: usize = 0;
            while col < width
                invariant
                    col <= width,
                    row < height,
                    full == self.pixels.len(),
                    was.len() == full,
                    self.wf(),
                    self.width == old(self).width,
                    self.height == old(self).height,
                    was == old(self).pixels@,
                    x + width <= self.width,
                    y + height <= self.height,
                    patch@.len() == width * height,
                    forall|px: int, py: int|
                        #![trigger self.at(px, py)]
                        0 <= px < self.width && 0 <= py < self.height ==> self.at(px, py) == if py
                            == y + row && x <= px < x + col {
                            patch@[row * width + (px - x)]
                        } else {
                            patched_at(
                                was,
                                self.width as int,
                                patch@,
                                (x as int, y as int),
                                (width as int, row as int),
                                px,
                                py,
                            )
                        },
                decreases width - col,
            {
                proof {
                    lemma_in_bounds(
                        x + col,
                        y + row,
                        self.width as int,
                        self.height as int,
                    );
                    lemma_in_bounds(col as int, row as int, width as int, height as int);
                    assert((y + row) * self.width <= full) by {
                        lemma_in_bounds(0, y + row, self.width as int, self.height as int);
                    }
                    lemma_in_bounds(0, row as int, width as int, height as int);
                }
                let ghost before = *self;
                let total: usize = patch.len();
                let from: usize = row * width + col;
                let to: usize = (y + row) * self.width + (x + col);
                let word: u32 = patch[from];
                self.pixels.set(to, word);
                proof {
                    assert forall|px: int, py: int|
                        #![trigger self.at(px, py)]
                        0 <= px < self.width && 0 <= py < self.height implies self.at(px, py)
                        == if py == y + row && x <= px < x + (col + 1) {
                        patch@[row * width + (px - x)]
                    } else {
                        patched_at(
                            was,
                            self.width as int,
                            patch@,
                            (x as int, y as int),
                            (width as int, row as int),
                            px,
                            py,
                        )
                    } by {
                        lemma_in_bounds(px, py, self.width as int, self.height as int);
                        if py * self.width + px == to {
                            lemma_one_place(px, py, x + col, y + row, self.width as int);
                        } else {
                            assert(self.at(px, py) == before.at(px, py));
                        }
                    }
                }
                col = col + 1;
            }
            row = row + 1;
        }
    }
}

/// The textures there are, by their numbers.
pub struct Renderer {
    pub textures: HashMap<u64, Texture>,
}

impl Renderer {
    /// Every texture has a word per pixel.
    pub open spec fn wf(self) -> bool {
        forall|id: u64| #[trigger]
            self.textures@.contains_key(id) ==> self.textures@[id].wf()
    }

    pub fn new() -> (r: Renderer)
        ensures
            r.wf(),
            r.textures@ == Map::<u64, Texture>::empty(),
    {
        Renderer { textures: HashMap::new() }
    }

    /// Set a whole texture.
    pub fn set(&mut self, id: u64, texture: Texture)
        requires
            old(self).wf(),
            texture.wf(),
        ensures
            final(self).wf(),
            final(self).textures@ == old(self).textures@.insert(id, texture),
    {
        self.textures.insert(id, texture);
    }

    /// A patch fits the texture it is for.
    pub open spec fn fits(self, id: u64, x: int, y: int, width: int, height: int) -> bool {
        self.textures@.contains_key(id) ==> x + width <= self.textures@[id].width && y + height
            <= self.textures@[id].height
    }

    /// Patch a texture. A patch for one that is not there is left out.
    pub fn patch(&mut self, id: u64, x: usize, y: usize, width: usize, height: usize, patch: &Vec<
        u32,
    >)
        requires
            old(self).wf(),
            patch@.len() == width * height,
            old(self).fits(id, x as int, y as int, width as int, height as int),
        ensures
            final(self).wf(),
            if old(self).textures@.contains_key(id) {
                let was = old(self).textures@[id];
                &&& final(self).textures@ == old(self).textures@.insert(
                    id,
                    final(self).textures@[id],
                )
                &&& final(self).textures@[id].width == was.width
                &&& final(self).textures@[id].height == was.height
                &&& forall|px: int, py: int|
                    #![trigger final(self).textures@[id].at(px, py)]
                    0 <= px < was.width && 0 <= py < was.height ==> final(self).textures@[id].at(
                        px,
                        py,
                    ) == patched_at(
                        was.pixels@,
                        was.width as int,
                        patch@,
                        (x as int, y as int),
                        (width as int, height as int),
                        px,
                        py,
                    )
            } else {
                final(self).textures@ == old(self).textures@
            },
    {
        match self.textures.remove(&id) {
            Some(texture) => {
                let mut t = texture;
                t.patch(x, y, width, height, patch);
                self.textures.insert(id, t);
                assert(self.textures@ =~= old(self).textures@.insert(id, self.textures@[id]));
            },
            None => {
                assert(self.textures@ =~= old(self).textures@);
            },
        }
    }

    /// Free a texture.
    pub fn free(&mut self, id: u64)
        requires
            old(self).wf(),
        ensures
            final(self).wf(),
            final(self).textures@ == old(self).textures@.remove(id),
    {
        self.textures.remove(&id);
    }
}

/// A patch is put where it was to go, row by row, and nothing else changes.
pub proof fn law_patch_lands_in_its_place(
    t: Texture,
    after: Texture,
    x: usize,
    y: usize,
    width: usize,
    height: usize,
    patch: Seq<u32>,
    i: int,
    j: int,
)
    requires
        t.wf(),
        x + width <= t.width,
        y + height <= t.height,
        t.patched(after, x, y, width, height, patch),
    ensures
        after.width == t.width && after.height == t.height,
        0 <= i < width && 0 <= j < height ==> after.pixels@[(y + j) * t.width + (x + i)]
            == patch[j * width + i],
        0 <= i < t.width && 0 <= j < t.height && (i < x || i >= x + width || j < y || j >= y + height)
            ==> after.pixels@[j * t.width + i] == t.pixels@[j * t.width + i],
{
    if 0 <= i < width && 0 <= j < height {
        assert(after.at(x + i, y + j) == patch[((y + j) - y) * width + ((x + i) - x)]);
    }
    if 0 <= i < t.width && 0 <= j < t.height && (i < x || i >= x + width || j < y || j >= y
        + height) {
        assert(after.at(i, j) == t.pixels@[j * t.width + i]);
    }
}

} // verus!
