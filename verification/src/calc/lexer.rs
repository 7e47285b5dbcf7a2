//! Tokenizado de fórmulas de campos calculados.
//!
//! Reglas:
//! - El primer carácter fija el tipo del token: letra ASCII → `Nombre`;
//!   dígito o `.` → `Numero`; `@` → `IniciaFuncion`; cualquier otro →
//!   `Operador`.
//! - Un `Nombre` se extiende mientras siga una letra, un dígito o `_`.
//! - Un `Numero` se extiende mientras siga un dígito o `.`; si lo sigue una
//!   letra, el token es inválido.
//! - Un `Operador` es siempre un solo carácter.
//! - El `@` es un token de un carácter y debe ir seguido de una letra (o
//!   terminar la fórmula); en otro caso es inválido.
//! - Los espacios entre tokens se descartan.

use vstd::prelude::*;
use crate::error::MicError;
use crate::texto::{cadena, caracteres, concatenar3};

verus! {

/// Clasificación de un token.
#[derive(Debug, Clone, Copy, PartialEq, Eq, Structural)]
pub enum TipoToken {
    /// Nombre de variable o de función.
    Nombre,
    /// Constante numérica.
    Numero,
    /// Operador o paréntesis.
    Operador,
    /// Inicio de función: el carácter `@`.
    IniciaFuncion,
}

/// Un token con su texto y su clasificación.
#[derive(Debug, Clone, PartialEq, Eq)]
pub struct Token {
    /// Texto literal del token tal como aparece en la fórmula.
    pub texto: String,
    pub tipo: TipoToken,
}

// ---------------------------------------------------------------------------
// Especificación
// ---------------------------------------------------------------------------

/// Letra ASCII `A..Z` o `a..z`.
pub open spec fn es_letra_spec(c: char) -> bool {
    ('A' <= c && c <= 'Z') || ('a' <= c && c <= 'z')
}

/// Dígito decimal ASCII.
pub open spec fn es_digito_spec(c: char) -> bool {
    '0' <= c && c <= '9'
}

/// Dígito decimal o punto.
pub open spec fn es_digito_o_punto_spec(c: char) -> bool {
    es_digito_spec(c) || c == '.'
}

/// Carácter que continúa un nombre: letra, dígito o `_`.
pub open spec fn sigue_nombre(c: char) -> bool {
    es_letra_spec(c) || es_digito_spec(c) || c == '_'
}

/// Carácter con la propiedad Unicode `White_Space`.
pub open spec fn es_espacio_spec(c: char) -> bool {
    ('\u{9}' <= c && c <= '\u{d}') || c == ' ' || c == '\u{85}' || c == '\u{a0}'
        || c == '\u{1680}' || ('\u{2000}' <= c && c <= '\u{200a}') || c == '\u{2028}'
        || c == '\u{2029}' || c == '\u{202f}' || c == '\u{205f}' || c == '\u{3000}'
}

/// Índice del último carácter del nombre que empieza en `i`: el nombre se
/// extiende mientras el carácter siguiente continúe un nombre.
pub open spec fn fin_nombre(s: Seq<char>, i: int) -> int
    decreases s.len() - i,
{
    if 0 <= i && i + 1 < s.len() && sigue_nombre(s[i + 1]) {
        fin_nombre(s, i + 1)
    } else {
        i
    }
}

/// Índice del último carácter de la constante numérica que empieza en `i`.
pub open spec fn fin_numero(s: Seq<char>, i: int) -> int
    decreases s.len() - i,
{
    if 0 <= i && i + 1 < s.len() && es_digito_o_punto_spec(s[i + 1]) {
        fin_numero(s, i + 1)
    } else {
        i
    }
}

/// El token que empieza en la posición `i` (no blanca): `(válido, tipo, fin)`,
/// donde `fin` es el índice de su último carácter.
pub open spec fn token_en(s: Seq<char>, i: int) -> (bool, TipoToken, int) {
    let c = s[i];
    if es_letra_spec(c) {
        (true, TipoToken::Nombre, fin_nombre(s, i))
    } else if es_digito_o_punto_spec(c) {
        let f = fin_numero(s, i);
        (!(f + 1 < s.len() && es_letra_spec(s[f + 1])), TipoToken::Numero, f)
    } else if c == '@' {
        (!(i + 1 < s.len() && !es_letra_spec(s[i + 1])), TipoToken::IniciaFuncion, i)
    } else {
        (true, TipoToken::Operador, i)
    }
}

/// Resultado del tokenizado a partir de la posición `i`: la lista de tokens
/// `(texto, tipo)`, o el texto del primer token inválido.
pub open spec fn lexear(s: Seq<char>, i: int) -> Result<Seq<(Seq<char>, TipoToken)>, Seq<char>>
    decreases s.len() - i,
{
    if i < 0 || i >= s.len() {
        Ok(Seq::empty())
    } else if es_espacio_spec(s[i]) {
        lexear(s, i + 1)
    } else {
        let t = token_en(s, i);
        proof {
            lema_fin_token(s, i);
        }
        if !t.0 {
            Err(s.subrange(i, t.2 + 1))
        } else {
            anteponer(seq![(s.subrange(i, t.2 + 1), t.1)], lexear(s, t.2 + 1))
        }
    }
}

/// Antepone `p` a una lista de tokens correcta; deja pasar un error.
pub open spec fn anteponer(
    p: Seq<(Seq<char>, TipoToken)>,
    r: Result<Seq<(Seq<char>, TipoToken)>, Seq<char>>,
) -> Result<Seq<(Seq<char>, TipoToken)>, Seq<char>> {
    match r {
        Ok(ts) => Ok(p + ts),
        Err(e) => Err(e),
    }
}

/// Vista de un token como `(texto, tipo)`.
pub open spec fn vista_token(t: Token) -> (Seq<char>, TipoToken) {
    (t.texto@, t.tipo)
}

/// Vista de una lista de tokens.
pub open spec fn vista_tokens(ts: Seq<Token>) -> Seq<(Seq<char>, TipoToken)> {
    ts.map_values(|t: Token| vista_token(t))
}

/// Mensaje del error por token inválido.
pub open spec fn mensaje_token_invalido(t: Seq<char>) -> Seq<char> {
    "token inválido en la fórmula: '"@ + t + "'"@
}

/// Lo que el tokenizado de `f` devuelve.
pub open spec fn tokenizado(f: Seq<char>, res: Result<Vec<Token>, MicError>) -> bool {
    match lexear(f, 0) {
        Ok(ts) => res is Ok && vista_tokens(res->Ok_0@) == ts,
        Err(t) => res matches Err(MicError::Invalido(m)) && m@ == mensaje_token_invalido(t),
    }
}

/// El resultado de extraer el token `s[inicio..=fin]` de tipo `tipo`: el
/// token y su fin si es válido, o el error de token inválido.
pub open spec fn resultado_token(
    s: Seq<char>,
    inicio: int,
    fin: int,
    tipo: TipoToken,
    valido: bool,
    res: Result<(Token, usize), MicError>,
) -> bool {
    if valido {
        match res {
            Ok((t, f)) => f == fin && t.tipo == tipo && t.texto@ == s.subrange(inicio, fin + 1),
            Err(_) => false,
        }
    } else {
        match res {
            Err(MicError::Invalido(m)) => m@ == mensaje_token_invalido(s.subrange(inicio, fin + 1)),
            _ => false,
        }
    }
}

/// El nombre normalizado: cada espacio se sustituye por `_`.
pub open spec fn normalizado(s: Seq<char>) -> Seq<char> {
    s.map_values(|c: char| if c == ' ' { '_' } else { c })
}

pub proof fn lema_fin_nombre(s: Seq<char>, i: int)
    requires
        0 <= i < s.len(),
    ensures
        i <= fin_nombre(s, i) < s.len(),
        forall|k: int| i < k <= fin_nombre(s, i) ==> sigue_nombre(#[trigger] s[k]),
        fin_nombre(s, i) + 1 < s.len() ==> !sigue_nombre(s[fin_nombre(s, i) + 1]),
    decreases s.len() - i,
{
    if i + 1 < s.len() && sigue_nombre(s[i + 1]) {
        lema_fin_nombre(s, i + 1);
    }
}

pub proof fn lema_fin_numero(s: Seq<char>, i: int)
    requires
        0 <= i < s.len(),
    ensures
        i <= fin_numero(s, i) < s.len(),
        forall|k: int| i < k <= fin_numero(s, i) ==> es_digito_o_punto_spec(#[trigger] s[k]),
        fin_numero(s, i) + 1 < s.len() ==> !es_digito_o_punto_spec(s[fin_numero(s, i) + 1]),
    decreases s.len() - i,
{
    if i + 1 < s.len() && es_digito_o_punto_spec(s[i + 1]) {
        lema_fin_numero(s, i + 1);
    }
}

pub proof fn lema_fin_token(s: Seq<char>, i: int)
    requires
        0 <= i < s.len(),
    ensures
        i <= token_en(s, i).2 < s.len(),
{
    lema_fin_nombre(s, i);
    lema_fin_numero(s, i);
}

// ---------------------------------------------------------------------------
// Implementación
// ---------------------------------------------------------------------------

/// Indica si un carácter es letra ASCII.
fn es_letra(c: char) -> (r: bool)
    ensures
        r == es_letra_spec(c),
{
    ('A' <= c && c <= 'Z') || ('a' <= c && c <= 'z')
}

/// Dígito decimal o punto: arranca o continúa una constante numérica.
fn es_digito_o_punto(c: char) -> (r: bool)
    ensures
        r == es_digito_o_punto_spec(c),
{
    ('0' <= c && c <= '9') || c == '.'
}

/// Carácter que continúa un nombre.
fn continua_nombre(c: char) -> (r: bool)
    ensures
        r == sigue_nombre(c),
{
    es_letra(c) || ('0' <= c && c <= '9') || c == '_'
}

/// Carácter blanco (propiedad Unicode `White_Space`, como `char::is_whitespace`).
pub fn es_espacio(c: char) -> (r: bool)
    ensures
        r == es_espacio_spec(c),
{
    ('\u{9}' <= c && c <= '\u{d}') || c == ' ' || c == '\u{85}' || c == '\u{a0}'
        || c == '\u{1680}' || ('\u{2000}' <= c && c <= '\u{200a}') || c == '\u{2028}'
        || c == '\u{2029}' || c == '\u{202f}' || c == '\u{205f}' || c == '\u{3000}'
}

/// Normaliza un nombre visible de campo a su forma en fórmula: los espacios
/// se sustituyen por `_`, de modo que `Precio Venta` se escribe `Precio_Venta`.
pub fn normaliza_nombre(nombre: &str) -> (r: String)
    ensures
        r@ == normalizado(nombre@),
{
    let v = caracteres(nombre);
    let mut salida: Vec<char> = Vec::new();
    let mut i: usize = 0;
    while i < v.len()
        invariant
            v@ == nombre@,
            i <= v.len(),
            salida@ == normalizado(v@.subrange(0, i as int)),
        decreases v.len() - i,
    {
        let c = v[i];
        salida.push(if c == ' ' { '_' } else { c });
        i += 1;
        assert(normalizado(v@.subrange(0, i as int)) =~= normalizado(
            v@.subrange(0, i - 1),
        ).push(if c == ' ' { '_' } else { c }));
    }
    assert(v@.subrange(0, v.len() as int) =~= v@);
    cadena(&salida)
}

/// Índice del último carácter de la corrida de nombre que empieza en `inicio`.
fn avanzar_nombre(chars: &Vec<char>, inicio: usize) -> (fin: usize)
    requires
        inicio < chars.len(),
    ensures
        fin == fin_nombre(chars@, inicio as int),
{
    let mut fin = inicio;
    while fin + 1 < chars.len() && continua_nombre(chars[fin + 1])
        invariant
            inicio <= fin < chars.len(),
            fin_nombre(chars@, inicio as int) == fin_nombre(chars@, fin as int),
        decreases chars.len() - fin,
    {
        fin += 1;
    }
    fin
}

/// Índice del último carácter de la corrida numérica que empieza en `inicio`.
fn avanzar_numero(chars: &Vec<char>, inicio: usize) -> (fin: usize)
    requires
        inicio < chars.len(),
    ensures
        fin == fin_numero(chars@, inicio as int),
{
    let mut fin = inicio;
    while fin + 1 < chars.len() && es_digito_o_punto(chars[fin + 1])
        invariant
            inicio <= fin < chars.len(),
            fin_numero(chars@, inicio as int) == fin_numero(chars@, fin as int),
        decreases chars.len() - fin,
    {
        fin += 1;
    }
    fin
}

/// Materializa el token con su texto `chars[inicio..=fin]` y su tipo, o
/// devuelve el error de token inválido.
fn construir(chars: &Vec<char>, inicio: usize, fin: usize, tipo: TipoToken, valido: bool) -> (res:
    Result<(Token, usize), MicError>)
    requires
        inicio <= fin < chars.len(),
    ensures
        resultado_token(chars@, inicio as int, fin as int, tipo, valido, res),
{
    let texto = cadena(&chars.as_slice()[inicio..fin + 1]);
    if valido {
        Ok((Token { texto, tipo }, fin))
    } else {
        Err(MicError::Invalido(concatenar3("token inválido en la fórmula: '", texto.as_str(), "'")))
    }
}

/// Extrae el token que empieza en `inicio` (un carácter no blanco) y devuelve
/// el token junto con el índice de su último carácter.
fn obten_token(chars: &Vec<char>, inicio: usize) -> (res: Result<(Token, usize), MicError>)
    requires
        inicio < chars.len(),
    ensures
        ({
            let (valido, tipo, fin) = token_en(chars@, inicio as int);
            resultado_token(chars@, inicio as int, fin, tipo, valido, res)
        }),
{
    proof {
        lema_fin_token(chars@, inicio as int);
    }
    let primero = chars[inicio];
    if es_letra(primero) {
        let fin = avanzar_nombre(chars, inicio);
        construir(chars, inicio, fin, TipoToken::Nombre, true)
    } else if es_digito_o_punto(primero) {
        let fin = avanzar_numero(chars, inicio);
        let valido = !(fin + 1 < chars.len() && es_letra(chars[fin + 1]));
        construir(chars, inicio, fin, TipoToken::Numero, valido)
    } else if primero == '@' {
        let valido = !(inicio + 1 < chars.len() && !es_letra(chars[inicio + 1]));
        construir(chars, inicio, inicio, TipoToken::IniciaFuncion, valido)
    } else {
        construir(chars, inicio, inicio, TipoToken::Operador, true)
    }
}

/// Tokeniza la fórmula completa, descartando los espacios entre tokens.
///
/// Devuelve `MicError::Invalido` con el texto del primer token mal formado
/// (por ejemplo, una constante numérica seguida de una letra: `12abc`).
pub fn tokenizar(formula: &str) -> (res: Result<Vec<Token>, MicError>)
    ensures
        tokenizado(formula@, res),
{
    let chars = caracteres(formula);
    let n = chars.len();
    let mut tokens: Vec<Token> = Vec::new();
    let mut i: usize = 0;
    while i < n
        invariant
            chars@ == formula@,
            n == chars.len(),
            i <= n,
            lexear(chars@, 0) == anteponer(vista_tokens(tokens@), lexear(chars@, i as int)),
        decreases n - i,
    {
        if es_espacio(chars[i]) {
            i += 1;
            continue;
        }
        let ghost previos = tokens@;
        proof {
            lema_fin_token(chars@, i as int);
        }
        let (token, fin) = match obten_token(&chars, i) {
            Ok(par) => par,
            Err(e) => {
                return Err(e);
            },
        };
        tokens.push(token);
        proof {
            let t = token_en(chars@, i as int);
            assert(vista_tokens(tokens@) =~= vista_tokens(previos) + seq![vista_token(token)]);
            let resto = lexear(chars@, fin + 1);
            assert(anteponer(vista_tokens(previos), anteponer(seq![vista_token(token)], resto))
                == anteponer(vista_tokens(tokens@), resto)) by {
                match resto {
                    Ok(ts) => {
                        assert(vista_tokens(previos) + (seq![vista_token(token)] + ts)
                            =~= vista_tokens(tokens@) + ts);
                    },
                    Err(_) => {},
                }
            }
        }
        i = fin + 1;
    }
    Ok(tokens)
}

// ---------------------------------------------------------------------------
// Forma de los tokens
// ---------------------------------------------------------------------------

/// El texto sin sus caracteres blancos.
pub open spec fn sin_espacios(s: Seq<char>) -> Seq<char>
    decreases s.len(),
{
    if s.len() == 0 {
        Seq::empty()
    } else if es_espacio_spec(s[0]) {
        sin_espacios(s.drop_first())
    } else {
        seq![s[0]] + sin_espacios(s.drop_first())
    }
}

/// Los textos de los tokens, uno tras otro.
pub open spec fn textos_unidos(ts: Seq<(Seq<char>, TipoToken)>) -> Seq<char>
    decreases ts.len(),
{
    if ts.len() == 0 {
        Seq::empty()
    } else {
        ts[0].0 + textos_unidos(ts.drop_first())
    }
}

/// La forma de un token: un nombre empieza por letra y sigue con letras,
/// dígitos o `_`; un número son dígitos y puntos; el inicio de función es
/// `@`; un operador es un solo carácter no blanco.
pub open spec fn forma_token(t: (Seq<char>, TipoToken)) -> bool {
    &&& t.0.len() > 0
    &&& match t.1 {
        TipoToken::Nombre => es_letra_spec(t.0[0]) && forall|k: int| 0 <= k < t.0.len() ==> sigue_nombre(#[trigger] t.0[k]),
        TipoToken::Numero => forall|k: int| 0 <= k < t.0.len() ==> es_digito_o_punto_spec(#[trigger] t.0[k]),
        TipoToken::IniciaFuncion => t.0 == seq!['@'],
        TipoToken::Operador => t.0.len() == 1 && !es_espacio_spec(t.0[0]),
    }
}

proof fn lema_sin_espacios_concat(a: Seq<char>, b: Seq<char>)
    ensures
        sin_espacios(a + b) == sin_espacios(a) + sin_espacios(b),
    decreases a.len(),
{
    if a.len() > 0 {
        assert((a + b).drop_first() =~= a.drop_first() + b);
        assert((a + b)[0] == a[0]);
        lema_sin_espacios_concat(a.drop_first(), b);
        if !es_espacio_spec(a[0]) {
            assert(seq![a[0]] + (sin_espacios(a.drop_first()) + sin_espacios(b)) =~= seq![a[0]]
                + sin_espacios(a.drop_first()) + sin_espacios(b));
        }
    } else {
        assert(a + b =~= b);
    }
}

proof fn lema_sin_espacios_nada(x: Seq<char>)
    requires
        forall|k: int| 0 <= k < x.len() ==> !es_espacio_spec(#[trigger] x[k]),
    ensures
        sin_espacios(x) == x,
    decreases x.len(),
{
    if x.len() > 0 {
        assert(forall|k: int| 0 <= k < x.drop_first().len() ==> x.drop_first()[k] == x[k + 1]);
        lema_sin_espacios_nada(x.drop_first());
        assert(seq![x[0]] + x.drop_first() =~= x);
    }
}

/// Unos tokens seguidos de más tokens.
proof fn lema_textos_unidos_primero(p: (Seq<char>, TipoToken), ts: Seq<(Seq<char>, TipoToken)>)
    ensures
        textos_unidos(seq![p] + ts) == p.0 + textos_unidos(ts),
{
    assert((seq![p] + ts).drop_first() =~= ts);
}

/// El tokenizado conserva la fórmula: los textos de los tokens, uno tras
/// otro, son la fórmula sin sus blancos, y cada token tiene la forma de su
/// tipo.
pub proof fn ley_tokens_forman_la_formula(s: Seq<char>, i: int)
    requires
        0 <= i <= s.len(),
    ensures
        lexear(s, i) matches Ok(ts) ==> textos_unidos(ts) == sin_espacios(s.subrange(i, s.len() as int))
            && forall|k: int| 0 <= k < ts.len() ==> forma_token(#[trigger] ts[k]),
    decreases s.len() - i,
{
    let resto = s.subrange(i, s.len() as int);
    if i >= s.len() {
        assert(resto =~= Seq::<char>::empty());
    } else if es_espacio_spec(s[i]) {
        ley_tokens_forman_la_formula(s, i + 1);
        assert(resto.drop_first() =~= s.subrange(i + 1, s.len() as int));
    } else {
        let t = token_en(s, i);
        lema_fin_token(s, i);
        lema_fin_nombre(s, i);
        lema_fin_numero(s, i);
        if t.0 {
            ley_tokens_forman_la_formula(s, t.2 + 1);
            let x = s.subrange(i, t.2 + 1);
            let p = (x, t.1);
            assert forall|k: int| 0 <= k < x.len() implies !es_espacio_spec(#[trigger] x[k]) by {
                assert(x[k] == s[i + k]);
                if k > 0 {
                    if t.1 == TipoToken::Nombre {
                        assert(sigue_nombre(s[i + k]));
                    } else {
                        assert(es_digito_o_punto_spec(s[i + k]));
                    }
                }
            }
            assert(forma_token(p)) by {
                assert forall|k: int| 0 <= k < x.len() implies x[k] == s[i + k] by {}
                if t.1 == TipoToken::Nombre {
                    assert forall|k: int| 0 <= k < x.len() implies sigue_nombre(#[trigger] x[k]) by {
                        assert(x[k] == s[i + k]);
                        if k > 0 {
                            assert(sigue_nombre(s[i + k]));
                        }
                    }
                } else if t.1 == TipoToken::Numero {
                    assert forall|k: int| 0 <= k < x.len() implies es_digito_o_punto_spec(#[trigger] x[k]) by {
                        assert(x[k] == s[i + k]);
                        if k > 0 {
                            assert(es_digito_o_punto_spec(s[i + k]));
                        }
                    }
                } else if t.1 == TipoToken::IniciaFuncion {
                    assert(x =~= seq!['@']);
                }
            }
            match lexear(s, t.2 + 1) {
                Ok(ts) => {
                    lema_textos_unidos_primero(p, ts);
                    lema_sin_espacios_nada(x);
                    assert(resto =~= x + s.subrange(t.2 + 1, s.len() as int));
                    lema_sin_espacios_concat(x, s.subrange(t.2 + 1, s.len() as int));
                    assert forall|k: int| 0 <= k < (seq![p] + ts).len() implies forma_token(#[trigger] (seq![p] + ts)[k]) by {
                        if k > 0 {
                            assert((seq![p] + ts)[k] == ts[k - 1]);
                        }
                    }
                },
                Err(_) => {},
            }
        }
    }
}

} // verus!
