//! The tile catalog: which tiles can be painted, and how an atlas image is
//! cut into sub-tiles.
use vstd::prelude::*;

verus! {

/// A width and a height in world units.
#[derive(Clone, Copy, Debug, PartialEq, Eq, Structural)]
pub struct Size2 {
    pub width: u32,
    pub height: u32,
}

/// How one image is cut into `columns * rows` sub-tiles of `tile_size`.
#[derive(Clone, Copy, Debug, PartialEq, Eq, Structural)]
pub struct AtlasDefinition {
    pub tile_size: Size2,
    pub columns: usize,
    pub rows: usize,
    pub padding: Option<Size2>,
    pub offset: Option<Size2>,
}

impl AtlasDefinition {
    /// The number of sub-tiles; sub-indices range over `0 .. tile_count`.
    pub open spec fn tile_count_spec(self) -> int {
        self.columns * self.rows
    }

    /// At least one sub-tile, and the count fits a `usize`.
    pub open spec fn wf(self) -> bool {
        &&& self.columns >= 1
        &&& self.rows >= 1
        &&& self.tile_count_spec() <= usize::MAX
    }

    /// Whether this atlas is well formed.
    pub fn is_well_formed(&self) -> (r: bool)
        ensures
            r == self.wf(),
    {
        if self.columns == 0 || self.rows == 0 {
            return false;
        }
        let limit: usize = usize::MAX / self.columns;
        proof {
            lemma_fits_product(self.columns as int, self.rows as int, usize::MAX as int, limit as int);
        }
        self.rows <= limit
    }

    /// The number of sub-tiles of a well-formed atlas.
    pub fn tile_count(&self) -> (r: usize)
        requires
            self.wf(),
        ensures
            r == self.tile_count_spec(),
    {
        self.columns * self.rows
    }

    /// Whether `index` names a sub-tile of this atlas.
    pub fn contains_index(&self, index: usize) -> (r: bool)
        requires
            self.wf(),
        ensures
            r == (index < self.tile_count_spec()),
    {
        index < self.tile_count()
    }
}

/// `b <= m / a` exactly when `a * b <= m`, for positive `a`.
proof fn lemma_fits_product(a: int, b: int, m: int, q: int)
    requires
        a > 0,
        b >= 0,
        m >= 0,
        q == m / a,
    ensures
        (b <= q) == (a * b <= m),
{
    assert(a * q <= m && m < a * (q + 1)) by (nonlinear_arith)
        requires
            a > 0,
            m >= 0,
            q == m / a,
    ;
    if b <= q {
        assert(a * b <= a * q) by (nonlinear_arith)
            requires
                a > 0,
                b <= q,
        ;
    } else {
        assert(a * b >= a * (q + 1)) by (nonlinear_arith)
            requires
                a > 0,
                b >= q + 1,
        ;
    }
}

/// One paintable tile: a unique name, an image path, and optionally the
/// atlas that cuts the image into sub-tiles.
#[derive(Clone, Debug)]
pub struct Tile {
    pub name: String,
    pub path: String,
    pub atlas_definition: Option<AtlasDefinition>,
}

impl Tile {
    /// A copy of this tile.
    pub fn copied(&self) -> (r: Tile)
        ensures
            r == *self,
    {
        Tile {
            name: self.name.clone(),
            path: self.path.clone(),
            atlas_definition: self.atlas_definition,
        }
    }

    /// The atlas, if any, is well formed.
    pub open spec fn atlas_ok(self) -> bool {
        match self.atlas_definition {
            Some(a) => a.wf(),
            None => true,
        }
    }
}

/// Why a catalog could not be loaded.
#[derive(Clone, Debug)]
pub enum DefinitionFileError {
    /// The catalog file could not be read.
    Io(String),
    /// The catalog text is not a valid document.
    RonSpannedError { message: String, line: usize, col: usize },
    /// Tile `second` has the name of the earlier tile `first`.
    DuplicateName { first: usize, second: usize },
    /// The atlas of tile `tile` has no sub-tile, or too many to count.
    InvalidAtlas { tile: usize },
}

/// A loaded catalog: the tiles in file order.
#[derive(Clone, Debug)]
pub struct TileDefinition {
    pub tiles: Vec<Tile>,
}

/// Tile `i` shares its name with an earlier tile.
pub open spec fn name_repeated(tiles: Seq<Tile>, i: int) -> bool {
    exists|j: int| 0 <= j < i && tiles[j].name@ == tiles[i].name@
}

/// Tile `i` breaks a rule of the catalog.
pub open spec fn has_issue(tiles: Seq<Tile>, i: int) -> bool {
    !tiles[i].atlas_ok() || name_repeated(tiles, i)
}

/// Names are unique and every atlas is well formed.
pub open spec fn tiles_wf(tiles: Seq<Tile>) -> bool {
    forall|i: int| 0 <= i < tiles.len() ==> !#[trigger] has_issue(tiles, i)
}

/// `i` is the first tile that breaks a rule.
pub open spec fn first_issue(tiles: Seq<Tile>, i: int) -> bool {
    &&& 0 <= i < tiles.len()
    &&& has_issue(tiles, i)
    &&& forall|k: int| 0 <= k < i ==> !#[trigger] has_issue(tiles, k)
}

impl TileDefinition {
    pub open spec fn wf(self) -> bool {
        tiles_wf(self.tiles@)
    }

    /// Builds a catalog from tiles in file order, checking that names are
    /// unique and that every atlas is well formed. The error reports the
    /// first tile, in file order, that breaks a rule; for a repeated name,
    /// together with the first earlier tile of that name.
    pub fn from_tiles(tiles: Vec<Tile>) -> (r: Result<TileDefinition, DefinitionFileError>)
        ensures
            r is Ok <==> tiles_wf(tiles@),
            r matches Ok(d) ==> d.tiles@ == tiles@,
            r matches Err(DefinitionFileError::InvalidAtlas { tile }) ==> {
                &&& first_issue(tiles@, tile as int)
                &&& !tiles@[tile as int].atlas_ok()
            },
            r matches Err(DefinitionFileError::DuplicateName { first, second }) ==> {
                &&& first_issue(tiles@, second as int)
                &&& tiles@[second as int].atlas_ok()
                &&& first < second
                &&& tiles@[first as int].name@ == tiles@[second as int].name@
                &&& forall|k: int|
                    0 <= k < first ==> tiles@[k].name@ != tiles@[second as int].name@
            },
            r is Err ==> (r matches Err(DefinitionFileError::InvalidAtlas { .. }) || r matches Err(
                DefinitionFileError::DuplicateName { .. },
            )),
    {
        let n = tiles.len();
        let mut i: usize = 0;
        while i < n
            invariant
                n == tiles@.len(),
                0 <= i <= n,
                forall|k: int| 0 <= k < i ==> !#[trigger] has_issue(tiles@, k),
            decreases n - i,
        {
            let ok = match &tiles[i].atlas_definition {
                Some(a) => a.is_well_formed(),
                None => true,
            };
            if !ok {
                assert(has_issue(tiles@, i as int));
                return Err(DefinitionFileError::InvalidAtlas { tile: i });
            }
            assert(tiles@[i as int].atlas_ok());
            let mut j: usize = 0;
            while j < i
                invariant
                    n == tiles@.len(),
                    0 <= j <= i < n,
                    tiles@[i as int].atlas_ok(),
                    forall|k: int| 0 <= k < i ==> !#[trigger] has_issue(tiles@, k),
                    forall|k: int| 0 <= k < j ==> tiles@[k].name@ != tiles@[i as int].name@,
                decreases i - j,
            {
                if tiles[j].name == tiles[i].name {
                    assert(has_issue(tiles@, i as int));
                    return Err(DefinitionFileError::DuplicateName { first: j, second: i });
                }
                j += 1;
            }
            assert(!has_issue(tiles@, i as int));
            i += 1;
        }
        Ok(TileDefinition { tiles })
    }

    /// The positions of the tiles that carry an atlas, in file order.
    pub fn atlas_tiles(&self) -> (r: Vec<usize>)
        ensures
            forall|k: int| 0 <= k < r@.len() ==> r@[k] < self.tiles@.len(),
            forall|k: int|
                0 <= k < r@.len() ==> (#[trigger] self.tiles@[r@[k] as int]).atlas_definition is Some,
            forall|i: int|
                0 <= i < self.tiles@.len() && (#[trigger] self.tiles@[i]).atlas_definition is Some
                    ==> exists|k: int| 0 <= k < r@.len() && r@[k] == i,
            forall|a: int, b: int| 0 <= a < b < r@.len() ==> r@[a] < r@[b],
    {
        let mut r: Vec<usize> = Vec::new();
        let mut i: usize = 0;
        while i < self.tiles.len()
            invariant
                0 <= i <= self.tiles@.len(),
                forall|k: int| 0 <= k < r@.len() ==> r@[k] < i,
                forall|k: int|
                    0 <= k < r@.len() ==> (#[trigger] self.tiles@[r@[k] as int]).atlas_definition is Some,
                forall|m: int|
                    0 <= m < i && (#[trigger] self.tiles@[m]).atlas_definition is Some
                        ==> exists|k: int| 0 <= k < r@.len() && r@[k] == m,
                forall|a: int, b: int| 0 <= a < b < r@.len() ==> r@[a] < r@[b],
            decreases self.tiles@.len() - i,
        {
            let ghost before = r@;
            if self.tiles[i].atlas_definition.is_some() {
                r.push(i);
                assert(r@[r@.len() - 1] == i);
            }
            assert forall|m: int|
                0 <= m <= i && (#[trigger] self.tiles@[m]).atlas_definition is Some implies exists|k: int|
                    0 <= k < r@.len() && r@[k] == m by {
                if m < i {
                    let k = choose|k: int| 0 <= k < before.len() && before[k] == m;
                    assert(r@[k] == m);
                } else {
                    assert(r@[r@.len() - 1] == m);
                }
            }
            i += 1;
        }
        r
    }
}

} // verus!
