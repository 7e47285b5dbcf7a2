//! Direcciones del protocolo de miniaturas que pide el frontend:
//! `thumb://localhost/{albumId}/{tabla}/{id}?size=N&v=M`. Aquí se interpretan
//! la ruta y la consulta, y se elige el tipo de contenido de una imagen
//! original por su extensión; servir los bytes queda fuera de la biblioteca
//! verificada.

use vstd::prelude::*;
use crate::model::Tabla;
use vstd::string::*;
use crate::migrador::type_map::{entero_de, entero_spec, es_cifra, solo_cifras, valor_cifras};
use crate::texto::{cadena, caracteres, en_minusculas, minusculas};

verus! {

/// Trozos de `s` entre apariciones de `sep`, como `split`: siempre al menos
/// uno, y vacíos donde hay dos separadores seguidos.
pub open spec fn partes(s: Seq<char>, sep: char) -> Seq<Seq<char>>
    decreases s.len(),
{
    if s.len() == 0 {
        seq![Seq::empty()]
    } else {
        let p = partes(s.drop_last(), sep);
        if s.last() == sep {
            p.push(Seq::empty())
        } else {
            p.update(p.len() - 1, p.last().push(s.last()))
        }
    }
}

proof fn lema_partes_no_vacias(s: Seq<char>, sep: char)
    ensures
        partes(s, sep).len() >= 1,
    decreases s.len(),
{
    if s.len() > 0 {
        lema_partes_no_vacias(s.drop_last(), sep);
    }
}

/// Divide `s` en los trozos entre apariciones de `sep`.
pub fn dividir(s: &Vec<char>, sep: char) -> (r: Vec<Vec<char>>)
    ensures
        r@.map_values(|t: Vec<char>| t@) == partes(s@, sep),
{
    let mut r: Vec<Vec<char>> = Vec::new();
    let mut actual: Vec<char> = Vec::new();
    let mut i: usize = 0;
    while i < s.len()
        invariant
            i <= s@.len(),
            r@.map_values(|t: Vec<char>| t@).push(actual@) == partes(s@.subrange(0, i as int), sep),
        decreases s.len() - i,
    {
        let ghost sub = s@.subrange(0, i + 1);
        assert(sub.drop_last() =~= s@.subrange(0, i as int));
        proof {
            lema_partes_no_vacias(s@.subrange(0, i as int), sep);
        }
        let c = s[i];
        if c == sep {
            let hecho = actual;
            r.push(hecho);
            actual = Vec::new();
        } else {
            actual.push(c);
        }
        i += 1;
        assert(r@.map_values(|t: Vec<char>| t@).push(actual@) =~= partes(sub, sep));
    }
    assert(s@.subrange(0, i as int) =~= s@);
    r.push(actual);
    assert(r@.map_values(|t: Vec<char>| t@) =~= partes(s@, sep));
    r
}

/// `s` sin las barras `/` del principio y del final.
pub open spec fn sin_barras(s: Seq<char>) -> Seq<char>
    decreases s.len(),
{
    if s.len() > 0 && s[0] == '/' {
        sin_barras(s.drop_first())
    } else if s.len() > 0 && s.last() == '/' {
        sin_barras(s.drop_last())
    } else {
        s
    }
}

/// Quita las barras `/` de los extremos de `s`.
fn quitar_barras(s: &Vec<char>) -> (r: Vec<char>)
    ensures
        r@ == sin_barras(s@),
{
    let mut a: usize = 0;
    let mut b: usize = s.len();
    assert(s@.subrange(0, b as int) =~= s@);
    while a < b && s[a] == '/'
        invariant
            a <= b == s@.len(),
            sin_barras(s@.subrange(a as int, b as int)) == sin_barras(s@),
        decreases b - a,
    {
        assert(s@.subrange(a as int, b as int).drop_first() =~= s@.subrange(a + 1, b as int));
        a += 1;
    }
    while a < b && s[b - 1] == '/'
        invariant
            a <= b <= s@.len(),
            sin_barras(s@.subrange(a as int, b as int)) == sin_barras(s@),
            a < b ==> s@[a as int] != '/',
        decreases b - a,
    {
        assert(s@.subrange(a as int, b as int).drop_last() =~= s@.subrange(a as int, b - 1));
        b -= 1;
    }
    let mut r: Vec<char> = Vec::new();
    let mut k: usize = a;
    while k < b
        invariant
            a <= k <= b <= s@.len(),
            r@ == s@.subrange(a as int, k as int),
        decreases b - k,
    {
        r.push(s[k]);
        k += 1;
        assert(r@ =~= s@.subrange(a as int, k as int));
    }
    r
}

/// Número natural que denota `s` según `from_str` de un entero sin signo:
/// `+` opcional seguido de al menos una cifra, y como mucho `max`.
pub open spec fn natural_spec(s: Seq<char>, max: int) -> Option<int> {
    let d = if s.len() > 0 && s[0] == '+' {
        s.drop_first()
    } else {
        s
    };
    if d.len() > 0 && solo_cifras(d) && valor_cifras(d) <= max {
        Some(valor_cifras(d))
    } else {
        None
    }
}

proof fn lema_valor_cifras_no_negativo(d: Seq<char>)
    requires
        solo_cifras(d),
    ensures
        valor_cifras(d) >= 0,
    decreases d.len(),
{
    if d.len() > 0 {
        lema_valor_cifras_no_negativo(d.drop_last());
    }
}

proof fn lema_valor_prefijo(d: Seq<char>, k: int)
    requires
        0 <= k <= d.len(),
        solo_cifras(d),
    ensures
        valor_cifras(d.subrange(0, k)) <= valor_cifras(d),
    decreases d.len() - k,
{
    if k < d.len() {
        lema_valor_prefijo(d, k + 1);
        assert(d.subrange(0, k + 1).drop_last() =~= d.subrange(0, k));
        lema_valor_cifras_no_negativo(d.subrange(0, k));
    } else {
        assert(d.subrange(0, k) =~= d);
    }
}

/// Natural no mayor que `max` que denota `s`, si lo denota.
pub fn natural_de(s: &Vec<char>, max: u64) -> (r: Option<u64>)
    ensures
        match natural_spec(s@, max as int) {
            Some(v) => r == Some(v as u64),
            None => r is None,
        },
        r matches Some(n) ==> n <= max,
        natural_spec(s@, max as int) matches Some(v) ==> 0 <= v <= max,
{
    let inicio: usize = if s.len() > 0 && s[0] == '+' {
        1
    } else {
        0
    };
    let ghost d = s@.subrange(inicio as int, s.len() as int);
    assert(inicio == 1 ==> d =~= s@.drop_first());
    assert(inicio == 0 ==> d =~= s@);
    if inicio >= s.len() {
        return None;
    }
    let mut acc: u64 = 0;
    let mut k: usize = inicio;
    while k < s.len()
        invariant
            inicio <= k <= s@.len(),
            d == s@.subrange(inicio as int, s@.len() as int),
            d == (if s@.len() > 0 && s@[0] == '+' {
                s@.drop_first()
            } else {
                s@
            }),
            solo_cifras(d.subrange(0, k - inicio)),
            acc == valor_cifras(d.subrange(0, k - inicio)),
            acc <= max,
        decreases s.len() - k,
    {
        let c = s[k];
        let ghost pre = d.subrange(0, k - inicio);
        let ghost sig = d.subrange(0, k + 1 - inicio);
        assert(sig.drop_last() =~= pre);
        if !('0' <= c && c <= '9') {
            assert(!solo_cifras(d)) by {
                assert(d[k - inicio] == c);
            }
            return None;
        }
        let cifra: u64 = (c as u32 - '0' as u32) as u64;
        let nuevo: u128 = (acc as u128) * 10 + (cifra as u128);
        assert(valor_cifras(sig) == nuevo);
        if nuevo > max as u128 {
            proof {
                if solo_cifras(d) {
                    lema_valor_prefijo(d, k + 1 - inicio);
                }
            }
            return None;
        }
        acc = nuevo as u64;
        k += 1;
        assert(solo_cifras(sig)) by {
            assert forall|j: int| 0 <= j < sig.len() implies es_cifra(#[trigger] sig[j]) by {
                if j < sig.len() - 1 {
                    assert(sig[j] == pre[j]);
                }
            }
        }
    }
    assert(d.subrange(0, k - inicio) =~= d);
    Some(acc)
}

/// Tabla que nombra un segmento de la ruta.
pub open spec fn tabla_de_texto(t: Seq<char>) -> Option<Tabla> {
    if t == "principal"@ {
        Some(Tabla::Principal)
    } else if t == "variantes"@ {
        Some(Tabla::Variantes)
    } else {
        None
    }
}

/// Lo que denota la ruta `/{albumId}/{tabla}/{id}`: exactamente tres
/// segmentos (sin contar barras en los extremos), un natural de 64 bits, el
/// nombre de una tabla y un entero de 64 bits.
pub open spec fn ruta_thumb(path: Seq<char>) -> Option<(u64, Tabla, i64)> {
    let p = partes(sin_barras(path), '/');
    if p.len() != 3 {
        None
    } else {
        match (natural_spec(p[0], u64::MAX as int), tabla_de_texto(p[1]), entero_spec(p[2])) {
            (Some(a), Some(t), Some(i)) => Some((a as u64, t, i as i64)),
            _ => None,
        }
    }
}

/// Interpreta `/{albumId}/{tabla}/{id}`; `None` si la ruta no tiene esa
/// forma.
pub fn parsear_ruta(path: &str) -> (r: Option<(u64, Tabla, i64)>)
    ensures
        r == ruta_thumb(path@),
{
    let limpio = quitar_barras(&caracteres(path));
    let p = dividir(&limpio, '/');
    let ghost vp = p@.map_values(|t: Vec<char>| t@);
    assert(vp.len() == p@.len());
    if p.len() != 3 {
        return None;
    }
    assert(p@[0]@ == vp[0] && p@[1]@ == vp[1] && p@[2]@ == vp[2]);
    let album_id = match natural_de(&p[0], u64::MAX) {
        Some(n) => n,
        None => return None,
    };
    let t = cadena(p[1].as_slice());
    proof {
        reveal_strlit("principal");
        reveal_strlit("variantes");
    }
    let tabla = if t == String::from_str("principal") {
        Tabla::Principal
    } else if t == String::from_str("variantes") {
        Tabla::Variantes
    } else {
        return None;
    };
    let id = match entero_de(&p[2]) {
        Some(n) => n,
        None => return None,
    };
    Some((album_id, tabla, id))
}

/// Clave y valor de un par `clave=valor` según `splitn(2, '=')`: la clave
/// hasta el primer `=` y el valor tras él (sin valor si no hay `=`).
pub open spec fn clave_valor(p: Seq<char>) -> (Seq<char>, Option<Seq<char>>)
    decreases p.len(),
{
    if p.len() == 0 {
        (Seq::empty(), None)
    } else {
        let (k, v) = clave_valor(p.drop_last());
        match v {
            None => if p.last() == '=' {
                (k, Some(Seq::empty()))
            } else {
                (k.push(p.last()), None)
            },
            Some(x) => (k, Some(x.push(p.last()))),
        }
    }
}

/// Separa un par en su clave y su valor.
fn separar_par(p: &Vec<char>) -> (r: (Vec<char>, Option<Vec<char>>))
    ensures
        r.0@ == clave_valor(p@).0,
        match (r.1, clave_valor(p@).1) {
            (Some(a), Some(b)) => a@ == b,
            (None, None) => true,
            _ => false,
        },
{
    let mut k: Vec<char> = Vec::new();
    let mut v: Option<Vec<char>> = None;
    let mut i: usize = 0;
    while i < p.len()
        invariant
            i <= p@.len(),
            k@ == clave_valor(p@.subrange(0, i as int)).0,
            match (v, clave_valor(p@.subrange(0, i as int)).1) {
                (Some(a), Some(b)) => a@ == b,
                (None, None) => true,
                _ => false,
            },
        decreases p.len() - i,
    {
        let ghost sub = p@.subrange(0, i + 1);
        assert(sub.drop_last() =~= p@.subrange(0, i as int));
        let c = p[i];
        match v {
            Some(mut x) => {
                x.push(c);
                v = Some(x);
            },
            None => {
                if c == '=' {
                    v = Some(Vec::new());
                } else {
                    k.push(c);
                }
            },
        }
        i += 1;
    }
    assert(p@.subrange(0, i as int) =~= p@);
    (k, v)
}

/// Tamaño pedido (256 si no se indica o no es un natural de 32 bits) y
/// versión de la consulta formada por los pares `pares`: cada `size=N` o
/// `v=M` posterior sustituye al anterior; los demás pares se ignoran.
pub open spec fn consulta_spec(pares: Seq<Seq<char>>) -> (u32, Option<Seq<char>>)
    decreases pares.len(),
{
    if pares.len() == 0 {
        (256, None)
    } else {
        let (size, version) = consulta_spec(pares.drop_last());
        let (k, valor) = clave_valor(pares.last());
        match valor {
            Some(x) => if k == "size"@ {
                match natural_spec(x, u32::MAX as int) {
                    Some(n) => (n as u32, version),
                    None => (size, version),
                }
            } else if k == "v"@ {
                (size, Some(x))
            } else {
                (size, version)
            },
            None => (size, version),
        }
    }
}

/// Extrae `size` (por omisión 256) y `v` (la versión, que solo sirve para
/// que el navegador guarde en caché por dirección) de la consulta.
pub fn parsear_query(query: &str) -> (r: (u32, Option<String>))
    ensures
        r.0 == consulta_spec(partes(query@, '&')).0,
        match (r.1, consulta_spec(partes(query@, '&')).1) {
            (Some(a), Some(b)) => a@ == b,
            (None, None) => true,
            _ => false,
        },
{
    let pares = dividir(&caracteres(query), '&');
    let ghost vp = pares@.map_values(|t: Vec<char>| t@);
    let mut size: u32 = 256;
    let mut version: Option<String> = None;
    let mut i: usize = 0;
    proof {
        reveal_strlit("size");
        reveal_strlit("v");
    }
    while i < pares.len()
        invariant
            i <= pares@.len(),
            vp == pares@.map_values(|t: Vec<char>| t@),
            vp == partes(query@, '&'),
            size == consulta_spec(vp.subrange(0, i as int)).0,
            match (version, consulta_spec(vp.subrange(0, i as int)).1) {
                (Some(a), Some(b)) => a@ == b,
                (None, None) => true,
                _ => false,
            },
        decreases pares.len() - i,
    {
        let ghost sub = vp.subrange(0, i + 1);
        assert(sub.drop_last() =~= vp.subrange(0, i as int));
        assert(sub.last() == pares@[i as int]@);
        let (k, valor) = separar_par(&pares[i]);
        let clave = cadena(k.as_slice());
        match valor {
            Some(x) => {
                if clave == String::from_str("size") {
                    match natural_de(&x, 0xFFFF_FFFF) {
                        Some(n) => {
                            assert(n <= 0xFFFF_FFFFu64);
                            size = n as u32;
                        },
                        None => {},
                    }
                } else if clave == String::from_str("v") {
                    version = Some(cadena(x.as_slice()));
                }
            },
            None => {},
        }
        i += 1;
    }
    assert(vp.subrange(0, i as int) =~= vp);
    (size, version)
}

/// Tipo de contenido de una imagen original según su extensión (sin
/// distinguir mayúsculas ASCII); `application/octet-stream` si no es una
/// conocida o no hay extensión.
pub open spec fn tipo_contenido_spec(ext: Option<Seq<char>>) -> Seq<char> {
    match ext {
        Some(e) => {
            let m = minusculas(e);
            if m == "jpg"@ || m == "jpeg"@ {
                "image/jpeg"@
            } else if m == "png"@ {
                "image/png"@
            } else if m == "gif"@ {
                "image/gif"@
            } else if m == "webp"@ {
                "image/webp"@
            } else if m == "bmp"@ {
                "image/bmp"@
            } else if m == "tif"@ || m == "tiff"@ {
                "image/tiff"@
            } else {
                "application/octet-stream"@
            }
        },
        None => "application/octet-stream"@,
    }
}

/// Tipo de contenido que corresponde a una extensión.
pub fn tipo_contenido(ext: Option<&str>) -> (r: &'static str)
    ensures
        r@ == tipo_contenido_spec(
            match ext {
                Some(e) => Some(e@),
                None => None,
            },
        ),
{
    match ext {
        Some(e) => {
            let m = cadena(&en_minusculas(&caracteres(e)));
            if m == String::from_str("jpg") || m == String::from_str("jpeg") {
                "image/jpeg"
            } else if m == String::from_str("png") {
                "image/png"
            } else if m == String::from_str("gif") {
                "image/gif"
            } else if m == String::from_str("webp") {
                "image/webp"
            } else if m == String::from_str("bmp") {
                "image/bmp"
            } else if m == String::from_str("tif") || m == String::from_str("tiff") {
                "image/tiff"
            } else {
                "application/octet-stream"
            }
        },
        None => "application/octet-stream",
    }
}

/// Tipo de contenido de la imagen original `ruta` por su extensión. La
/// extensión la da `Path::extension`, que depende de la plataforma; el
/// resultado es el tipo de alguna extensión (o de ninguna).
pub fn content_type_por_extension(ruta: &str) -> (r: &'static str)
    ensures
        r@ == tipo_contenido_spec(None) || exists|e: Seq<char>| r@ == tipo_contenido_spec(Some(e)),
{
    let ext = crate::importar::archivo::extension_de(ruta);
    match &ext {
        Some(e) => tipo_contenido(Some(e.as_str())),
        None => tipo_contenido(None),
    }
}

} // verus!
