//! Names and type signatures of the Java classes that the plugin builds.
use vstd::prelude::*;
use vstd::string::*;

use crate::chunk::Chunk;
use crate::section::ChunkSection;

verus! {

/// The type of an argument passed to a Java constructor.
#[derive(Debug, Clone)]
pub enum JavaType {
    /// An object, with its type signature (such as `Ljava/lang/String;`).
    Object(String),
    Byte,
    Char,
    Short,
    Int,
    Long,
    Bool,
    Float,
    Double,
    Void,
}

/// The JNI type signature of `t`.
pub open spec fn type_sig(t: JavaType) -> Seq<char> {
    match t {
        JavaType::Object(sig) => sig@,
        JavaType::Byte => seq!['B'],
        JavaType::Char => seq!['C'],
        JavaType::Short => seq!['S'],
        JavaType::Int => seq!['I'],
        JavaType::Long => seq!['J'],
        JavaType::Bool => seq!['Z'],
        JavaType::Float => seq!['F'],
        JavaType::Double => seq!['D'],
        JavaType::Void => seq!['V'],
    }
}

/// The type signatures of `args`, one after the other.
pub open spec fn arg_sigs(args: Seq<JavaType>) -> Seq<char>
    decreases args.len(),
{
    if args.len() == 0 {
        Seq::empty()
    } else {
        arg_sigs(args.drop_last()) + type_sig(args.last())
    }
}

/// The JNI signature of a constructor taking `args`: `(`, their type signatures, `)V`.
pub open spec fn ctor_sig(args: Seq<JavaType>) -> Seq<char> {
    seq!['('] + arg_sigs(args) + seq![')', 'V']
}

impl JavaType {
    /// The JNI type signature of this type.
    pub fn type_signature(&self) -> (r: String)
        ensures
            r@ == type_sig(*self),
    {
        proof {
            reveal_strlit("B");
            reveal_strlit("C");
            reveal_strlit("D");
            reveal_strlit("F");
            reveal_strlit("I");
            reveal_strlit("J");
            reveal_strlit("S");
            reveal_strlit("Z");
            reveal_strlit("V");
        }
        match self {
            JavaType::Byte => String::from_str("B"),
            JavaType::Char => String::from_str("C"),
            JavaType::Double => String::from_str("D"),
            JavaType::Float => String::from_str("F"),
            JavaType::Int => String::from_str("I"),
            JavaType::Long => String::from_str("J"),
            JavaType::Short => String::from_str("S"),
            JavaType::Bool => String::from_str("Z"),
            JavaType::Object(sig) => sig.clone(),
            JavaType::Void => String::from_str("V"),
        }
    }
}

/// The JNI signature of a constructor taking arguments of the types `args`, in order.
pub fn constructor_signature(args: &Vec<JavaType>) -> (r: String)
    ensures
        r@ == ctor_sig(args@),
{
    proof {
        reveal_strlit("(");
        reveal_strlit(")V");
    }
    let mut out = String::from_str("(");
    let mut i: usize = 0;
    while i < args.len()
        invariant
            i <= args@.len(),
            out@ == seq!['('] + arg_sigs(args@.subrange(0, i as int)),
        decreases args@.len() - i,
    {
        let sig = args[i].type_signature();
        out.append(sig.as_str());
        proof {
            let s = args@.subrange(0, i + 1);
            assert(s.drop_last() =~= args@.subrange(0, i as int));
        }
        i = i + 1;
    }
    assert(args@.subrange(0, args@.len() as int) =~= args@);
    out.append(")V");
    out
}

/// The path of the Java package that holds the packet classes.
pub open spec fn packets_path() -> Seq<char> {
    "io/github/personbelowrocks/minecraft/testgenerator/packets"@
}

/// The path of the packet class `name`: the packets package path, `/`, then `name`.
pub fn pkt_cls_path(name: &str) -> (r: String)
    ensures
        r@ == packets_path() + "/"@ + name@,
{
    let mut path = String::from_str("io/github/personbelowrocks/minecraft/testgenerator/packets");
    path.append("/");
    path.append(name);
    path
}

/// The Java `int` carrying the bits of a block ID.
pub open spec fn block_bits(id: u32) -> i32 {
    id as i32
}

/// The blocks of an initialized section as the Java constructor takes them: indexed
/// `[x][y][z]`, each block ID carried bit for bit in an `int`; `None` for an uninitialized
/// section (the constructor then gets a null array).
pub fn section_poles(section: &ChunkSection) -> (r: Option<Vec<Vec<Vec<i32>>>>)
    ensures
        r is Some <==> section.initialized(),
        r matches Some(cube) ==> {
            &&& cube@.len() == 16
            &&& forall|x: int| 0 <= x < 16 ==> #[trigger] cube@[x]@.len() == 16
            &&& forall|x: int, y: int|
                0 <= x < 16 && 0 <= y < 16 ==> #[trigger] cube@[x]@[y]@.len() == 16
            &&& forall|x: int, y: int, z: int|
                0 <= x < 16 && 0 <= y < 16 && 0 <= z < 16 ==> #[trigger] cube@[x]@[y]@[z]
                    == block_bits(section.block(x, y, z).0)
        },
{
    if !section.is_initialized() {
        return None;
    }
    let mut cube: Vec<Vec<Vec<i32>>> = Vec::new();
    let mut x: usize = 0;
    while x < 16
        invariant
            x <= 16,
            cube@.len() == x,
            forall|a: int| 0 <= a < x ==> #[trigger] cube@[a]@.len() == 16,
            forall|a: int, b: int| 0 <= a < x && 0 <= b < 16 ==> #[trigger] cube@[a]@[b]@.len() == 16,
            forall|a: int, b: int, c: int|
                0 <= a < x && 0 <= b < 16 && 0 <= c < 16 ==> #[trigger] cube@[a]@[b]@[c]
                    == block_bits(section.block(a, b, c).0),
        decreases 16 - x,
    {
        let mut sheet: Vec<Vec<i32>> = Vec::new();
        let mut y: usize = 0;
        while y < 16
            invariant
                x < 16,
                y <= 16,
                sheet@.len() == y,
                forall|b: int| 0 <= b < y ==> #[trigger] sheet@[b]@.len() == 16,
                forall|b: int, c: int|
                    0 <= b < y && 0 <= c < 16 ==> #[trigger] sheet@[b]@[c] == block_bits(
                        section.block(x as int, b, c).0,
                    ),
            decreases 16 - y,
        {
            let mut pole: Vec<i32> = Vec::new();
            let mut z: usize = 0;
            while z < 16
                invariant
                    x < 16,
                    y < 16,
                    z <= 16,
                    pole@.len() == z,
                    forall|c: int| 0 <= c < z ==> #[trigger] pole@[c] == block_bits(
                        section.block(x as int, y as int, c).0,
                    ),
                decreases 16 - z,
            {
                let b = match section.get([x, y, z]) {
                    Some(b) => *b,
                    None => section.default_id(),
                };
                pole.push(b.0 as i32);
                z = z + 1;
            }
            sheet.push(pole);
            y = y + 1;
        }
        cube.push(sheet);
        x = x + 1;
    }
    Some(cube)
}

/// The path of the Java class of chunk sections.
pub open spec fn section_class_path() -> Seq<char> {
    "io/github/personbelowrocks/minecraft/testgenerator/ChunkSection"@
}

/// The arguments of the Java `Chunk` constructor for `chunk`: their types (an array of
/// chunk sections, then six `long`s) and the six `long` values, which are the smallest and the
/// largest corner of the chunk's bounding box.
pub fn chunk_ctor_args(chunk: &Chunk) -> (r: (Vec<JavaType>, Vec<i64>))
    requires
        chunk.wf(),
    ensures
        r.0@.len() == 7,
        r.0@[0] matches JavaType::Object(sig) && sig@ == seq!['[', 'L'] + section_class_path()
            + seq![';'],
        forall|k: int| 1 <= k < 7 ==> #[trigger] r.0@[k] == JavaType::Long,
        r.1@.len() == 6,
        r.1@[0] == chunk.corner().x,
        r.1@[1] == chunk.corner().y,
        r.1@[2] == chunk.corner().z,
        r.1@[3] == chunk.corner().x + 16,
        r.1@[4] == chunk.max_y(),
        r.1@[5] == chunk.corner().z + 16,
{
    proof {
        reveal_strlit("[L");
        reveal_strlit(";");
    }
    let mut sig = String::from_str("[L");
    sig.append("io/github/personbelowrocks/minecraft/testgenerator/ChunkSection");
    sig.append(";");
    let mut types: Vec<JavaType> = Vec::new();
    types.push(JavaType::Object(sig));
    let mut k: usize = 0;
    while k < 6
        invariant
            k <= 6,
            types@.len() == k + 1,
            types@[0] matches JavaType::Object(s) && s@ == seq!['[', 'L'] + section_class_path()
                + seq![';'],
            forall|j: int| 1 <= j < k + 1 ==> #[trigger] types@[j] == JavaType::Long,
        decreases 6 - k,
    {
        types.push(JavaType::Long);
        k = k + 1;
    }
    let bb = chunk.bounding_box();
    let min = bb.min();
    let max = bb.max();
    let mut longs: Vec<i64> = Vec::new();
    longs.push(min.x);
    longs.push(min.y);
    longs.push(min.z);
    longs.push(max.x);
    longs.push(max.y);
    longs.push(max.z);
    assert(chunk.min_y() <= chunk.max_y());
    (types, longs)
}

} // verus!
