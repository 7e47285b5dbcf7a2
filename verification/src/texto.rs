//! Utilidades de texto sobre secuencias de caracteres.

use vstd::prelude::*;
use vstd::string::*;

verus! {

/// Los caracteres (valores escalares Unicode) de `s`, en orden.
#[verifier::external_body]
pub fn caracteres(s: &str) -> (v: Vec<char>)
    ensures
        v@ == s@,
{
    s.chars().collect()
}

/// La cadena formada por los caracteres de `v`, en orden.
#[verifier::external_body]
pub fn cadena(v: &[char]) -> (s: String)
    ensures
        s@ == v@,
{
    v.iter().collect()
}

/// Concatena tres trozos de texto.
pub fn concatenar3(a: &str, b: &str, c: &str) -> (s: String)
    ensures
        s@ == a@ + b@ + c@,
{
    let mut s = String::from_str(a);
    s.append(b);
    s.append(c);
    s
}

/// Concatena dos trozos de texto.
pub fn concatenar(a: &str, b: &str) -> (s: String)
    ensures
        s@ == a@ + b@,
{
    let mut s = String::from_str(a);
    s.append(b);
    s
}

/// Mayúscula ASCII de un carácter (los demás quedan igual).
pub open spec fn mayuscula(c: char) -> char {
    if 'a' <= c && c <= 'z' {
        ((c as int) - 32) as char
    } else {
        c
    }
}

/// Minúscula ASCII de un carácter (los demás quedan igual).
pub open spec fn minuscula(c: char) -> char {
    if 'A' <= c && c <= 'Z' {
        ((c as int) + 32) as char
    } else {
        c
    }
}

/// Texto con las letras ASCII pasadas a mayúsculas.
pub open spec fn mayusculas(s: Seq<char>) -> Seq<char> {
    s.map_values(|c: char| mayuscula(c))
}

/// Texto con las letras ASCII pasadas a minúsculas.
pub open spec fn minusculas(s: Seq<char>) -> Seq<char> {
    s.map_values(|c: char| minuscula(c))
}

/// Texto hecho solo de caracteres ASCII.
pub open spec fn es_ascii(s: Seq<char>) -> bool {
    forall|i: int| 0 <= i < s.len() ==> (#[trigger] s[i] as int) < 128
}

/// Igualdad sin distinguir mayúsculas ASCII (`str::eq_ignore_ascii_case`).
pub open spec fn igual_sin_caja(a: Seq<char>, b: Seq<char>) -> bool {
    minusculas(a) == minusculas(b)
}

/// Carácter con la propiedad Unicode `White_Space` (`char::is_whitespace`).
pub open spec fn es_blanco(c: char) -> bool {
    ('\u{9}' <= c && c <= '\u{d}') || c == ' ' || c == '\u{85}' || c == '\u{a0}'
        || c == '\u{1680}' || ('\u{2000}' <= c && c <= '\u{200a}') || c == '\u{2028}'
        || c == '\u{2029}' || c == '\u{202f}' || c == '\u{205f}' || c == '\u{3000}'
}

/// Sin los blancos iniciales.
pub open spec fn sin_blancos_inicio(s: Seq<char>) -> Seq<char>
    decreases s.len(),
{
    if s.len() > 0 && es_blanco(s[0]) {
        sin_blancos_inicio(s.drop_first())
    } else {
        s
    }
}

/// Sin los blancos finales.
pub open spec fn sin_blancos_fin(s: Seq<char>) -> Seq<char>
    decreases s.len(),
{
    if s.len() > 0 && es_blanco(s.last()) {
        sin_blancos_fin(s.drop_last())
    } else {
        s
    }
}

/// Texto sin blancos en los extremos (`str::trim`).
pub open spec fn recortado(s: Seq<char>) -> Seq<char> {
    sin_blancos_fin(sin_blancos_inicio(s))
}

/// Cifra decimal `d` (0..=9) como carácter.
pub open spec fn cifra(d: nat) -> char {
    ((d as int) + 48) as char
}

/// Representación decimal de `n`, sin ceros a la izquierda.
pub open spec fn decimal_spec(n: nat) -> Seq<char>
    decreases n,
{
    if n < 10 {
        seq![cifra(n)]
    } else {
        decimal_spec(n / 10).push(cifra(n % 10))
    }
}

/// Mayúscula ASCII de un carácter.
pub fn a_mayuscula(c: char) -> (r: char)
    ensures
        r == mayuscula(c),
{
    if 'a' <= c && c <= 'z' {
        let n: u32 = c as u32;
        let m: u8 = (n - 32) as u8;
        m as char
    } else {
        c
    }
}

/// Minúscula ASCII de un carácter.
pub fn a_minuscula(c: char) -> (r: char)
    ensures
        r == minuscula(c),
{
    if 'A' <= c && c <= 'Z' {
        let n: u32 = c as u32;
        let m: u8 = (n + 32) as u8;
        m as char
    } else {
        c
    }
}

/// Carácter blanco (propiedad Unicode `White_Space`).
pub fn blanco(c: char) -> (r: bool)
    ensures
        r == es_blanco(c),
{
    ('\u{9}' <= c && c <= '\u{d}') || c == ' ' || c == '\u{85}' || c == '\u{a0}'
        || c == '\u{1680}' || ('\u{2000}' <= c && c <= '\u{200a}') || c == '\u{2028}'
        || c == '\u{2029}' || c == '\u{202f}' || c == '\u{205f}' || c == '\u{3000}'
}

/// Copia de `s` con las letras ASCII en mayúsculas (`to_ascii_uppercase`).
pub fn en_mayusculas(s: &Vec<char>) -> (r: Vec<char>)
    ensures
        r@ == mayusculas(s@),
{
    let mut r: Vec<char> = Vec::new();
    let mut i: usize = 0;
    while i < s.len()
        invariant
            i <= s.len(),
            r@ == mayusculas(s@.subrange(0, i as int)),
        decreases s.len() - i,
    {
        r.push(a_mayuscula(s[i]));
        i += 1;
        assert(mayusculas(s@.subrange(0, i as int)) =~= mayusculas(s@.subrange(0, i - 1)).push(
            mayuscula(s@[i - 1]),
        ));
    }
    assert(s@.subrange(0, s.len() as int) =~= s@);
    r
}

/// Copia de `s` con las letras ASCII en minúsculas (`to_ascii_lowercase`).
pub fn en_minusculas(s: &Vec<char>) -> (r: Vec<char>)
    ensures
        r@ == minusculas(s@),
{
    let mut r: Vec<char> = Vec::new();
    let mut i: usize = 0;
    while i < s.len()
        invariant
            i <= s.len(),
            r@ == minusculas(s@.subrange(0, i as int)),
        decreases s.len() - i,
    {
        r.push(a_minuscula(s[i]));
        i += 1;
        assert(minusculas(s@.subrange(0, i as int)) =~= minusculas(s@.subrange(0, i - 1)).push(
            minuscula(s@[i - 1]),
        ));
    }
    assert(s@.subrange(0, s.len() as int) =~= s@);
    r
}

/// Igualdad de dos secuencias de caracteres.
pub fn iguales(a: &Vec<char>, b: &Vec<char>) -> (r: bool)
    ensures
        r == (a@ == b@),
{
    if a.len() != b.len() {
        return false;
    }
    let mut i: usize = 0;
    while i < a.len()
        invariant
            a.len() == b.len(),
            i <= a.len(),
            forall|k: int| 0 <= k < i ==> a@[k] == b@[k],
        decreases a.len() - i,
    {
        if a[i] != b[i] {
            return false;
        }
        i += 1;
    }
    assert(a@ =~= b@);
    true
}

/// Igualdad sin distinguir mayúsculas ASCII (`eq_ignore_ascii_case`).
pub fn iguales_sin_caja(a: &Vec<char>, b: &Vec<char>) -> (r: bool)
    ensures
        r == igual_sin_caja(a@, b@),
{
    let la = en_minusculas(a);
    let lb = en_minusculas(b);
    iguales(&la, &lb)
}

/// Límites del tramo `s[desde..hasta]` sin blancos en los extremos: el
/// recorte es `s[ini..fin]`.
pub fn limites_recorte(s: &Vec<char>, desde: usize, hasta: usize) -> (r: (usize, usize))
    requires
        desde <= hasta <= s.len(),
    ensures
        desde <= r.0 <= r.1 <= hasta,
        s@.subrange(r.0 as int, r.1 as int) == recortado(s@.subrange(desde as int, hasta as int)),
{
    let ghost t = s@.subrange(desde as int, hasta as int);
    let mut ini: usize = desde;
    assert(s@.subrange(desde as int, hasta as int) =~= t);
    while ini < hasta && blanco(s[ini])
        invariant
            desde <= ini <= hasta <= s.len(),
            t == s@.subrange(desde as int, hasta as int),
            sin_blancos_inicio(t) == sin_blancos_inicio(s@.subrange(ini as int, hasta as int)),
        decreases hasta - ini,
    {
        assert(s@.subrange(ini as int, hasta as int).drop_first() =~= s@.subrange(
            ini + 1,
            hasta as int,
        ));
        ini += 1;
    }
    let mut fin: usize = hasta;
    while fin > ini && blanco(s[fin - 1])
        invariant
            desde <= ini <= fin <= hasta <= s.len(),
            t == s@.subrange(desde as int, hasta as int),
            sin_blancos_inicio(t) == s@.subrange(ini as int, hasta as int),
            recortado(t) == sin_blancos_fin(s@.subrange(ini as int, fin as int)),
        decreases fin,
    {
        assert(s@.subrange(ini as int, fin as int).drop_last() =~= s@.subrange(
            ini as int,
            fin - 1,
        ));
        fin -= 1;
    }
    (ini, fin)
}

/// Copia del tramo `s[desde..hasta]`.
pub fn tramo(s: &Vec<char>, desde: usize, hasta: usize) -> (r: Vec<char>)
    requires
        desde <= hasta <= s.len(),
    ensures
        r@ == s@.subrange(desde as int, hasta as int),
{
    let mut r: Vec<char> = Vec::new();
    let mut k: usize = desde;
    while k < hasta
        invariant
            desde <= k <= hasta <= s.len(),
            r@ == s@.subrange(desde as int, k as int),
        decreases hasta - k,
    {
        r.push(s[k]);
        k += 1;
        assert(r@ =~= s@.subrange(desde as int, k as int));
    }
    r
}

/// `s` sin blancos en los extremos (`str::trim`).
pub fn recortar(s: &Vec<char>) -> (r: Vec<char>)
    ensures
        r@ == recortado(s@),
{
    assert(s@.subrange(0, s.len() as int) =~= s@);
    let (ini, fin) = limites_recorte(s, 0, s.len());
    tramo(s, ini, fin)
}

/// Representación decimal de `n`.
pub fn decimal(n: u64) -> (r: Vec<char>)
    ensures
        r@ == decimal_spec(n as nat),
    decreases n,
{
    if n < 10 {
        let d: u8 = (n as u8) + 48;
        let mut r: Vec<char> = Vec::new();
        r.push(d as char);
        r
    } else {
        let mut r = decimal(n / 10);
        let d: u8 = ((n % 10) as u8) + 48;
        r.push(d as char);
        r
    }
}

/// Pertenencia tras añadir un elemento al final.
pub proof fn lema_contiene_push<A>(s: Seq<A>, c: A, x: A)
    ensures
        s.push(c).contains(x) == (s.contains(x) || c == x),
{
    if s.push(c).contains(x) {
        let k = choose|k: int| 0 <= k < s.push(c).len() && s.push(c)[k] == x;
        if k < s.len() {
            assert(s[k] == x);
        }
    }
    if s.contains(x) {
        let k = choose|k: int| 0 <= k < s.len() && s[k] == x;
        assert(s.push(c)[k] == x);
    }
    if c == x {
        assert(s.push(c)[s.len() as int] == x);
    }
}

} // verus!
