use vstd::prelude::*;
use crate::pixel::{lemma_cell_in_grid, Rgba8};
use vstd::hash_map::StringHashMap;

verus! {

/// The pixel that bytes `4k .. 4k + 4` of an RGBA8 buffer hold.
pub open spec fn rgba_at(bytes: Seq<u8>, k: int) -> Rgba8 {
    Rgba8::spec_new(bytes[4 * k], bytes[4 * k + 1], bytes[4 * k + 2], bytes[4 * k + 3])
}

/// A texture: `width * height` pixels stored row by row. Its methods
/// expect `wf()`, which the constructors establish.
#[derive(Debug)]
pub struct Texture {
    pub width: u32,
    pub height: u32,
    pub pixels: Vec<Rgba8>,
}

impl Texture {
    /// Both sides are positive and every pixel of the grid is stored.
    pub open spec fn wf(&self) -> bool {
        &&& self.width > 0
        &&& self.height > 0
        &&& self.pixels@.len() == self.width as int * self.height as int
    }

    /// The pixel at column `x`, row `y`.
    pub open spec fn pixel(&self, x: int, y: int) -> Rgba8 {
        self.pixels@[y * self.width + x]
    }

    pub open spec fn clamp_index(i: u32, len: u32) -> int {
        if i < len { i as int } else { len - 1 }
    }

    /// The texel that `texel(x, y)` returns: coordinates past the last
    /// column or row stick to it.
    pub open spec fn texel_spec(&self, x: u32, y: u32) -> Rgba8 {
        self.pixel(Self::clamp_index(x, self.width), Self::clamp_index(y, self.height))
    }

    /// A texture of the given size filled with one color.
    pub fn solid(width: u32, height: u32, color: Rgba8) -> (t: Texture)
        requires
            width > 0,
            height > 0,
            width as int * height as int <= usize::MAX,
        ensures
            t.wf(),
            t.width == width,
            t.height == height,
            forall|x: int, y: int| 0 <= x < width && 0 <= y < height ==> #[trigger] t.pixel(x, y) == color,
    {
        let n: usize = (width as usize) * (height as usize);
        let mut pixels: Vec<Rgba8> = Vec::new();
        let mut i: usize = 0;
        while i < n
            invariant
                i <= n,
                pixels@.len() == i,
                forall|k: int| 0 <= k < i ==> pixels@[k] == color,
            decreases n - i,
        {
            pixels.push(color);
            i = i + 1;
        }
        let t = Texture { width, height, pixels };
        assert forall|x: int, y: int| 0 <= x < width && 0 <= y < height implies #[trigger] t.pixel(x, y) == color by {
            lemma_cell_in_grid(x, y, width as int, height as int);
        }
        t
    }

    /// A texture from an 8-bit RGBA buffer: four bytes per pixel, row by
    /// row. `None` when a side is 0 or the buffer does not hold exactly
    /// `width * height` pixels.
    pub fn from_rgba8(width: u32, height: u32, bytes: &Vec<u8>) -> (r: Option<Texture>)
        ensures
            r is None <==> (width == 0 || height == 0
                || bytes@.len() != 4 * (width as int * height as int)),
            r matches Some(t) ==> {
                &&& t.wf()
                &&& t.width == width
                &&& t.height == height
                &&& forall|k: int| 0 <= k < t.pixels@.len() ==> #[trigger] t.pixels@[k] == rgba_at(bytes@, k)
            },
    {
        let len: usize = bytes.len();
        if width == 0 || height == 0 || len % 4 != 0 {
            return None;
        }
        let n: usize = match (width as usize).checked_mul(height as usize) {
            Some(n) => n,
            None => {
                return None;
            },
        };
        if len / 4 != n {
            return None;
        }
        let mut pixels: Vec<Rgba8> = Vec::new();
        let mut k: usize = 0;
        while k < n
            invariant
                k <= n,
                len == bytes@.len(),
                len == 4 * n,
                pixels@.len() == k,
                forall|j: int| 0 <= j < k ==> #[trigger] pixels@[j] == rgba_at(bytes@, j),
            decreases n - k,
        {
            let i: usize = 4 * k;
            pixels.push(Rgba8::new(bytes[i], bytes[i + 1], bytes[i + 2], bytes[i + 3]));
            k = k + 1;
        }
        Some(Texture { width, height, pixels })
    }

    /// The pixel at column `x`, row `y`, where a coordinate past the last
    /// column or row reads that last column or row.
    pub fn texel(&self, x: u32, y: u32) -> (p: Rgba8)
        requires
            self.wf(),
        ensures
            p == self.texel_spec(x, y),
    {
        let cx: u32 = if x < self.width { x } else { self.width - 1 };
        let cy: u32 = if y < self.height { y } else { self.height - 1 };
        proof {
            lemma_cell_in_grid(cx as int, cy as int, self.width as int, self.height as int);
        }
        let len: usize = self.pixels.len();
        assert(self.height as int * self.width as int == self.width as int * self.height as int) by (nonlinear_arith);
        assert((cy as int) * (self.width as int) + (cx as int) < len);
        let idx: usize = (cy as usize) * (self.width as usize) + (cx as usize);
        self.pixels[idx]
    }
}

/// Color of the 2x2 stand-in texture for a texture that could not be
/// loaded: one color per known name, magenta for any other name.
pub open spec fn fallback_color_of(name: Seq<char>) -> Rgba8 {
    if name == "grass"@ {
        Rgba8::spec_new(50, 200, 50, 255)
    } else if name == "wood"@ {
        Rgba8::spec_new(150, 100, 50, 255)
    } else if name == "water"@ {
        Rgba8::spec_new(50, 100, 200, 255)
    } else if name == "glass"@ {
        Rgba8::spec_new(200, 220, 255, 255)
    } else if name == "stone"@ {
        Rgba8::spec_new(120, 120, 120, 255)
    } else if name == "brick"@ {
        Rgba8::spec_new(150, 80, 60, 255)
    } else if name == "woodhouse"@ {
        Rgba8::spec_new(120, 80, 40, 255)
    } else if name == "fire"@ {
        Rgba8::spec_new(255, 200, 0, 255)
    } else {
        Rgba8::spec_new(255, 0, 255, 255)
    }
}

/// `t` is the stand-in texture for `name`: 2x2 pixels of its fallback color.
pub open spec fn is_fallback_for(t: Texture, name: Seq<char>) -> bool {
    &&& t.wf()
    &&& t.width == 2
    &&& t.height == 2
    &&& forall|x: int, y: int| 0 <= x < 2 && 0 <= y < 2 ==> #[trigger] t.pixel(x, y) == fallback_color_of(name)
}

fn same_name(a: &str, b: &str) -> (r: bool)
    ensures
        r == (a@ == b@),
{
    a.to_owned() == b.to_owned()
}

/// The fallback color for `name`.
pub fn fallback_color(name: &str) -> (c: Rgba8)
    ensures
        c == fallback_color_of(name@),
{
    if same_name(name, "grass") {
        Rgba8::new(50, 200, 50, 255)
    } else if same_name(name, "wood") {
        Rgba8::new(150, 100, 50, 255)
    } else if same_name(name, "water") {
        Rgba8::new(50, 100, 200, 255)
    } else if same_name(name, "glass") {
        Rgba8::new(200, 220, 255, 255)
    } else if same_name(name, "stone") {
        Rgba8::new(120, 120, 120, 255)
    } else if same_name(name, "brick") {
        Rgba8::new(150, 80, 60, 255)
    } else if same_name(name, "woodhouse") {
        Rgba8::new(120, 80, 40, 255)
    } else if same_name(name, "fire") {
        Rgba8::new(255, 200, 0, 255)
    } else {
        Rgba8::new(255, 0, 255, 255)
    }
}

/// How many textures the scene names.
pub const SCENE_TEXTURE_COUNT: usize = 9;

/// Name `i` of the scene's textures; its image is
/// `assets/textures/<name>.png`.
pub open spec fn scene_texture_name_spec(i: int) -> Seq<char> {
    if i == 0 {
        "grass"@
    } else if i == 1 {
        "wood"@
    } else if i == 2 {
        "water"@
    } else if i == 3 {
        "glass"@
    } else if i == 4 {
        "stone"@
    } else if i == 5 {
        "steve"@
    } else if i == 6 {
        "brick"@
    } else if i == 7 {
        "woodhouse"@
    } else {
        "fire"@
    }
}

/// Name `i` of the scene's textures.
pub fn scene_texture_name(i: usize) -> (r: &'static str)
    requires
        i < SCENE_TEXTURE_COUNT,
    ensures
        r@ == scene_texture_name_spec(i as int),
{
    if i == 0 {
        "grass"
    } else if i == 1 {
        "wood"
    } else if i == 2 {
        "water"
    } else if i == 3 {
        "glass"
    } else if i == 4 {
        "stone"
    } else if i == 5 {
        "steve"
    } else if i == 6 {
        "brick"
    } else if i == 7 {
        "woodhouse"
    } else {
        "fire"
    }
}

proof fn lemma_scene_texture_names_distinct()
    ensures
        forall|a: int, b: int| 0 <= a < SCENE_TEXTURE_COUNT && 0 <= b < SCENE_TEXTURE_COUNT && a != b
            ==> scene_texture_name_spec(a) != scene_texture_name_spec(b),
{
    reveal_strlit("grass");
    reveal_strlit("wood");
    reveal_strlit("water");
    reveal_strlit("glass");
    reveal_strlit("stone");
    reveal_strlit("steve");
    reveal_strlit("brick");
    reveal_strlit("woodhouse");
    reveal_strlit("fire");
    assert forall|a: int, b: int| 0 <= a < SCENE_TEXTURE_COUNT && 0 <= b < SCENE_TEXTURE_COUNT && a != b
        implies scene_texture_name_spec(a) != scene_texture_name_spec(b) by {
        let x = scene_texture_name_spec(a);
        let y = scene_texture_name_spec(b);
        if x == y {
            assert(x.len() == y.len());
            assert(x[0] == y[0]);
            assert(x[1] == y[1]);
            assert(x[2] == y[2]);
        }
    }
}

/// Textures by name; loading a name again replaces its texture.
pub struct TextureManager {
    textures: StringHashMap<Texture>,
}

impl View for TextureManager {
    type V = Map<Seq<char>, Texture>;

    closed spec fn view(&self) -> Map<Seq<char>, Texture> {
        self.textures@
    }
}

impl TextureManager {
    /// Every stored texture is well formed.
    pub closed spec fn wf(&self) -> bool {
        forall|k: Seq<char>| #[trigger] self.textures@.contains_key(k) ==> self.textures@[k].wf()
    }

    /// A catalog with no texture.
    pub fn empty() -> (m: TextureManager)
        ensures
            m.wf(),
            m@ == Map::<Seq<char>, Texture>::empty(),
    {
        TextureManager { textures: StringHashMap::new() }
    }

    /// The catalog of the scene: `loaded[i]` is what reading the image of
    /// `scene_texture_name(i)` gave, and each name whose image could not
    /// be read gets its fallback texture. It holds those names and no other.
    pub fn new(loaded: Vec<Option<Texture>>) -> (m: TextureManager)
        requires
            loaded@.len() == SCENE_TEXTURE_COUNT,
            forall|i: int| 0 <= i < loaded@.len() ==> (#[trigger] loaded@[i] matches Some(t) ==> t.wf()),
        ensures
            m.wf(),
            forall|k: Seq<char>| m@.dom().contains(k)
                <==> exists|i: int| 0 <= i < SCENE_TEXTURE_COUNT && k == #[trigger] scene_texture_name_spec(i),
            forall|i: int| 0 <= i < SCENE_TEXTURE_COUNT ==> match #[trigger] loaded@[i] {
                Some(t) => m@[scene_texture_name_spec(i)] == t,
                None => is_fallback_for(m@[scene_texture_name_spec(i)], scene_texture_name_spec(i)),
            },
    {
        proof {
            lemma_scene_texture_names_distinct();
        }
        let mut m = Self::empty();
        let mut loaded = loaded;
        let ghost all = loaded@;
        let mut i: usize = 0;
        while i < SCENE_TEXTURE_COUNT
            invariant
                i <= SCENE_TEXTURE_COUNT,
                all.len() == SCENE_TEXTURE_COUNT,
                loaded@ == all.subrange(i as int, SCENE_TEXTURE_COUNT as int),
                forall|j: int| 0 <= j < all.len() ==> (#[trigger] all[j] matches Some(t) ==> t.wf()),
                forall|a: int, b: int| 0 <= a < SCENE_TEXTURE_COUNT && 0 <= b < SCENE_TEXTURE_COUNT && a != b
                    ==> scene_texture_name_spec(a) != scene_texture_name_spec(b),
                m.wf(),
                forall|k: Seq<char>| m@.dom().contains(k)
                    <==> exists|j: int| 0 <= j < i && k == #[trigger] scene_texture_name_spec(j),
                forall|j: int| 0 <= j < i ==> match #[trigger] all[j] {
                    Some(t) => m@[scene_texture_name_spec(j)] == t,
                    None => is_fallback_for(m@[scene_texture_name_spec(j)], scene_texture_name_spec(j)),
                },
            decreases SCENE_TEXTURE_COUNT - i,
        {
            let name = scene_texture_name(i);
            let entry = loaded.remove(0);
            assert(entry == all[i as int]);
            let ghost before = m@;
            m.load_texture(name, entry);
            assert(loaded@ =~= all.subrange(i + 1, SCENE_TEXTURE_COUNT as int));
            assert forall|k: Seq<char>| m@.dom().contains(k)
                implies exists|j: int| 0 <= j < i + 1 && k == #[trigger] scene_texture_name_spec(j) by {
                if k == name@ {
                    assert(k == scene_texture_name_spec(i as int));
                }
            }
            assert forall|j: int| 0 <= j < i + 1 implies match #[trigger] all[j] {
                Some(t) => m@[scene_texture_name_spec(j)] == t,
                None => is_fallback_for(m@[scene_texture_name_spec(j)], scene_texture_name_spec(j)),
            } by {
                if j < i {
                    assert(before.dom().contains(scene_texture_name_spec(j)));
                }
            }
            i = i + 1;
        }
        m
    }

    /// The 2x2 texture in the fallback color of `name`.
    pub fn create_fallback_texture(name: &str) -> (t: Texture)
        ensures
            is_fallback_for(t, name@),
    {
        let c = fallback_color(name);
        Texture::solid(2, 2, c)
    }

    /// Stores the texture that was loaded for `name`, or the fallback
    /// texture of `name` where loading failed.
    pub fn load_texture(&mut self, name: &str, loaded: Option<Texture>)
        requires
            old(self).wf(),
            loaded matches Some(t) ==> t.wf(),
        ensures
            final(self).wf(),
            final(self)@.dom() == old(self)@.dom().insert(name@),
            forall|k: Seq<char>| k != name@ && old(self)@.dom().contains(k) ==> final(self)@[k] == old(self)@[k],
            match loaded {
                Some(t) => final(self)@[name@] == t,
                None => is_fallback_for(final(self)@[name@], name@),
            },
    {
        let texture = match loaded {
            Some(t) => t,
            None => Self::create_fallback_texture(name),
        };
        self.textures.insert(name.to_owned(), texture);
    }

    /// The texture stored under `name`, if any.
    pub fn get_texture(&self, name: &str) -> (r: Option<&Texture>)
        requires
            self.wf(),
        ensures
            r is Some <==> self@.dom().contains(name@),
            r matches Some(t) ==> *t == self@[name@] && t.wf(),
    {
        self.textures.get(name)
    }
}

} // verus!
