//! Conversión de las filas de registros del álbum de origen en inserciones:
//! qué columnas se escriben y con qué valores. Ejecutar las inserciones en la
//! base queda fuera de la biblioteca verificada.

use vstd::prelude::*;
use vstd::string::*;
use crate::calc::functions::iso_de;
use crate::db::query_builder::{es_flotante, reconoce_flotante};
use crate::migrador::csv_parser::{posicion_columna, vista_fila, TablaCsv};
use crate::migrador::migrar::{fecha_iso_spec, normalizar_fecha_iso};
use crate::migrador::paths::{imagen_normalizada, normalizar_imagen};
use crate::migrador::type_map::{entero_de, entero_spec, jet_bool, jet_bool_spec, numero_normalizado, numero_normalizado_spec};
use crate::model::{CampoDef, Tabla, TipoCampo};
use crate::texto::{cadena, caracteres, decimal, decimal_spec, recortado, recortar};

verus! {

/// Valor de una columna a insertar. Un real se guarda con el texto que lo
/// denota, en la forma que acepta `f64::from_str`.
#[derive(Debug, Clone)]
pub enum ValorSql {
    Nulo,
    Entero(i64),
    Real(String),
    Texto(String),
}

/// Vista de un [`ValorSql`].
pub enum ValorSqlSpec {
    Nulo,
    Entero(i64),
    Real(Seq<char>),
    Texto(Seq<char>),
}

pub open spec fn vista_valor(v: ValorSql) -> ValorSqlSpec {
    match v {
        ValorSql::Nulo => ValorSqlSpec::Nulo,
        ValorSql::Entero(n) => ValorSqlSpec::Entero(n),
        ValorSql::Real(s) => ValorSqlSpec::Real(s@),
        ValorSql::Texto(s) => ValorSqlSpec::Texto(s@),
    }
}

pub open spec fn vista_valores(v: Seq<ValorSql>) -> Seq<ValorSqlSpec> {
    v.map_values(|x: ValorSql| vista_valor(x))
}

/// Valor que se guarda para el texto `crudo` de un campo de tipo `tipo`:
/// vacío es nulo; números (con coma decimal admitida) como real, o nulo si
/// no lo son; fechas en ISO, o nulo si no se reconocen; el resto, el texto
/// sin blancos en los extremos.
pub open spec fn valor_sql_spec(crudo: Seq<char>, tipo: TipoCampo) -> ValorSqlSpec {
    let t = recortado(crudo);
    if t.len() == 0 {
        ValorSqlSpec::Nulo
    } else if tipo == TipoCampo::Numerico || tipo == TipoCampo::Moneda || tipo
        == TipoCampo::Calculado {
        match numero_normalizado_spec(t) {
            Some(x) => if es_flotante(x) {
                ValorSqlSpec::Real(x)
            } else {
                ValorSqlSpec::Nulo
            },
            None => ValorSqlSpec::Nulo,
        }
    } else if tipo == TipoCampo::Fecha {
        match fecha_iso_spec(t) {
            Some(iso) => ValorSqlSpec::Texto(iso),
            None => ValorSqlSpec::Nulo,
        }
    } else {
        ValorSqlSpec::Texto(t)
    }
}

/// Convierte el texto de una celda al valor que se guarda según el tipo del
/// campo.
pub fn convertir_valor_sql(crudo: &str, tipo: TipoCampo) -> (r: ValorSql)
    ensures
        vista_valor(r) == valor_sql_spec(crudo@, tipo),
{
    let t = cadena(recortar(&caracteres(crudo)).as_slice());
    if t.as_str().is_empty() {
        return ValorSql::Nulo;
    }
    match tipo {
        TipoCampo::Numerico | TipoCampo::Moneda | TipoCampo::Calculado => {
            match numero_normalizado(t.as_str()) {
                Some(x) => {
                    if reconoce_flotante(&caracteres(x.as_str())) {
                        ValorSql::Real(x)
                    } else {
                        ValorSql::Nulo
                    }
                },
                None => ValorSql::Nulo,
            }
        },
        TipoCampo::Fecha => match normalizar_fecha_iso(t.as_str()) {
            Some(iso) => ValorSql::Texto(iso),
            None => ValorSql::Nulo,
        },
        _ => ValorSql::Texto(t),
    }
}

/// Posiciones, en la cabecera de los datos, de las columnas de sistema.
#[derive(Debug, Clone, Copy)]
pub struct ColumnasSistema {
    /// `_id_` (o `Id`).
    pub id: Option<usize>,
    pub imagen: Option<usize>,
    pub auxiliar: Option<usize>,
    pub variantes: Option<usize>,
    /// `_idprincipal_` (o `_idprincipal`).
    pub idprincipal: Option<usize>,
}

/// Una posición de columna como índice de máquina.
pub open spec fn como_usize(o: Option<int>) -> Option<usize> {
    match o {
        Some(i) => Some(i as usize),
        None => None,
    }
}

/// La primera opción que exista.
pub open spec fn o_bien(a: Option<int>, b: Option<int>) -> Option<int> {
    match a {
        Some(i) => Some(i),
        None => b,
    }
}

/// Columnas de sistema de una cabecera (sin distinguir mayúsculas).
pub open spec fn sistema_spec(cab: Seq<Seq<char>>) -> ColumnasSistema {
    ColumnasSistema {
        id: como_usize(o_bien(posicion_columna(cab, "_id_"@), posicion_columna(cab, "Id"@))),
        imagen: como_usize(posicion_columna(cab, "_imagen_"@)),
        auxiliar: como_usize(posicion_columna(cab, "_auxiliar_"@)),
        variantes: como_usize(posicion_columna(cab, "_variantes_"@)),
        idprincipal: como_usize(
            o_bien(posicion_columna(cab, "_idprincipal_"@), posicion_columna(cab, "_idprincipal"@)),
        ),
    }
}

/// Localiza las columnas de sistema de los datos.
pub fn columnas_sistema(datos: &TablaCsv) -> (r: ColumnasSistema)
    ensures
        r == sistema_spec(vista_fila(datos.cabecera@)),
{
    let id = match datos.indice("_id_") {
        Some(i) => Some(i),
        None => datos.indice("Id"),
    };
    let idp = match datos.indice("_idprincipal_") {
        Some(i) => Some(i),
        None => datos.indice("_idprincipal"),
    };
    ColumnasSistema {
        id,
        imagen: datos.indice("_imagen_"),
        auxiliar: datos.indice("_auxiliar_"),
        variantes: datos.indice("_variantes_"),
        idprincipal: idp,
    }
}

/// Campos de la tabla pedida (`principal` o variantes) que tienen columna en
/// los datos, con la posición de su columna, en el orden de los campos.
pub open spec fn columnas_campos_spec(campos: Seq<CampoDef>, principal: bool, cab: Seq<Seq<char>>) -> Seq<(usize, CampoDef)>
    decreases campos.len(),
{
    if campos.len() == 0 {
        Seq::empty()
    } else {
        let previo = columnas_campos_spec(campos.drop_last(), principal, cab);
        let c = campos.last();
        if (c.tabla == Tabla::Principal) == principal {
            match posicion_columna(cab, c.nombre@) {
                Some(i) => previo.push((i as usize, c)),
                None => previo,
            }
        } else {
            previo
        }
    }
}

/// Asocia cada campo de la tabla con la columna de los datos que lleva su
/// nombre.
pub fn columnas_de_campos(campos: &[CampoDef], principal: bool, datos: &TablaCsv) -> (r: Vec<(usize, CampoDef)>)
    ensures
        r@ == columnas_campos_spec(campos@, principal, vista_fila(datos.cabecera@)),
{
    let ghost cab = vista_fila(datos.cabecera@);
    let mut r: Vec<(usize, CampoDef)> = Vec::new();
    let mut k: usize = 0;
    while k < campos.len()
        invariant
            k <= campos.len(),
            cab == vista_fila(datos.cabecera@),
            r@ == columnas_campos_spec(campos@.subrange(0, k as int), principal, cab),
        decreases campos.len() - k,
    {
        let ghost sub = campos@.subrange(0, k + 1);
        assert(sub.drop_last() =~= campos@.subrange(0, k as int));
        let c = &campos[k];
        if (c.tabla == Tabla::Principal) == principal {
            match datos.indice(c.nombre.as_str()) {
                Some(i) => r.push((i, c.copia())),
                None => {},
            }
        }
        k += 1;
    }
    assert(campos@.subrange(0, k as int) =~= campos@);
    r
}

/// Texto de la celda `i` de la fila, si la columna existe y la fila la tiene.
pub open spec fn celda(fila: Seq<Seq<char>>, i: Option<usize>) -> Option<Seq<char>> {
    match i {
        Some(k) => if k < fila.len() {
            Some(fila[k as int])
        } else {
            None
        },
        None => None,
    }
}

/// Entero de una celda con blancos en los extremos, si lo denota.
pub open spec fn entero_celda(c: Option<Seq<char>>) -> Option<int> {
    match c {
        Some(t) => entero_spec(recortado(t)),
        None => None,
    }
}

/// Columnas y valores de los campos de usuario de una fila (los multidatos
/// se omiten: guardan su conteo, que se rellena aparte).
pub open spec fn dinamicas(idx: Seq<(usize, CampoDef)>, fila: Seq<Seq<char>>) -> (Seq<Seq<char>>, Seq<ValorSqlSpec>)
    decreases idx.len(),
{
    if idx.len() == 0 {
        (Seq::empty(), Seq::empty())
    } else {
        let (cs, vs) = dinamicas(idx.drop_last(), fila);
        let (i, c) = idx.last();
        if c.tipo == TipoCampo::Multidato {
            (cs, vs)
        } else {
            let crudo = match celda(fila, Some(i)) {
                Some(t) => t,
                None => Seq::empty(),
            };
            (cs.push(c.col_fisica@), vs.push(valor_sql_spec(crudo, c.tipo)))
        }
    }
}

/// Aviso de una variante sin registro principal válido (fila `n`, desde 1).
pub open spec fn aviso_sin_principal(n: nat) -> Seq<char> {
    "variante en fila "@ + decimal_spec(n) + " sin _idprincipal_ válido; omitida"@
}

/// Columnas y valores que se insertan para una fila, o el aviso de por qué
/// se omite: el id original si lo hay, la imagen normalizada si no es
/// vacía, la marca de oculto, en la principal la marca de variantes y en
/// variantes el id del principal (obligatorio), y después los campos.
pub open spec fn insercion_spec(
    sis: ColumnasSistema,
    idx: Seq<(usize, CampoDef)>,
    fila: Seq<Seq<char>>,
    principal: bool,
    n: nat,
) -> Result<(Seq<Seq<char>>, Seq<ValorSqlSpec>), Seq<char>> {
    let (c1, v1) = match entero_celda(celda(fila, sis.id)) {
        Some(k) => (seq!["_id_"@], seq![ValorSqlSpec::Entero(k as i64)]),
        None => (Seq::empty(), Seq::empty()),
    };
    let (c2, v2) = match celda(fila, sis.imagen) {
        Some(raw) => if imagen_normalizada(raw).len() > 0 {
            (c1.push("_imagen_"@), v1.push(ValorSqlSpec::Texto(imagen_normalizada(raw))))
        } else {
            (c1, v1)
        },
        None => (c1, v1),
    };
    let aux = match celda(fila, sis.auxiliar) {
        Some(s) => jet_bool_spec(s),
        None => false,
    };
    let c3 = c2.push("_auxiliar_"@);
    let v3 = v2.push(ValorSqlSpec::Entero(if aux { 1 } else { 0 }));
    let (cd, vd) = dinamicas(idx, fila);
    if principal {
        let tv = match celda(fila, sis.variantes) {
            Some(s) => jet_bool_spec(s),
            None => false,
        };
        Ok((c3.push("_variantes_"@) + cd, v3.push(ValorSqlSpec::Entero(if tv { 1 } else { 0 })) + vd))
    } else {
        match entero_celda(celda(fila, sis.idprincipal)) {
            Some(v) => Ok((c3.push("_idprincipal_"@) + cd, v3.push(ValorSqlSpec::Entero(v as i64)) + vd)),
            None => Err(aviso_sin_principal(n)),
        }
    }
}

/// Una inserción: columnas y valores, en el mismo orden.
pub struct Insercion {
    pub columnas: Vec<String>,
    pub valores: Vec<ValorSql>,
}

/// Texto de una celda, si la fila la tiene.
fn celda_de<'a>(fila: &'a [String], i: Option<usize>) -> (r: Option<&'a String>)
    ensures
        match celda(fila@.map_values(|t: String| t@), i) {
            Some(t) => r matches Some(x) && x@ == t,
            None => r is None,
        },
{
    match i {
        Some(k) => if k < fila.len() {
            Some(&fila[k])
        } else {
            None
        },
        None => None,
    }
}

/// Entero de una celda con blancos en los extremos.
fn entero_de_celda(c: Option<&String>) -> (r: Option<i64>)
    ensures
        match entero_celda(
            match c {
                Some(t) => Some(t@),
                None => None,
            },
        ) {
            Some(v) => r == Some(v as i64),
            None => r is None,
        },
{
    match c {
        Some(t) => entero_de(&recortar(&caracteres(t.as_str()))),
        None => None,
    }
}

/// Columnas y valores de una fila de registros, o el aviso con que se omite
/// (variante sin principal). `n` es el número de fila, desde 0; `dir_mdb`
/// es la carpeta del álbum de origen.
pub fn fila_a_insercion(
    sis: &ColumnasSistema,
    idx: &[(usize, CampoDef)],
    fila: &[String],
    principal: bool,
    n: usize,
    dir_mdb: &std::path::PathBuf,
) -> (r: Result<Insercion, String>)
    requires
        n < u64::MAX,
    ensures
        match (r, insercion_spec(*sis, idx@, fila@.map_values(|t: String| t@), principal, (n + 1) as nat)) {
            (Ok(ins), Ok((cs, vs))) => ins.columnas@.map_values(|t: String| t@) == cs
                && vista_valores(ins.valores@) == vs,
            (Err(a), Err(b)) => a@ == b,
            _ => false,
        },
{
    let ghost vf = fila@.map_values(|t: String| t@);
    let mut columnas: Vec<String> = Vec::new();
    let mut valores: Vec<ValorSql> = Vec::new();
    proof {
        reveal_strlit("_id_");
        reveal_strlit("_imagen_");
        reveal_strlit("_auxiliar_");
        reveal_strlit("_variantes_");
        reveal_strlit("_idprincipal_");
    }
    match entero_de_celda(celda_de(fila, sis.id)) {
        Some(k) => {
            columnas.push(String::from_str("_id_"));
            valores.push(ValorSql::Entero(k));
        },
        None => {},
    }
    match celda_de(fila, sis.imagen) {
        Some(raw) => {
            let rel = normalizar_imagen(raw.as_str(), dir_mdb);
            if !rel.as_str().is_empty() {
                columnas.push(String::from_str("_imagen_"));
                valores.push(ValorSql::Texto(rel));
            }
        },
        None => {},
    }
    let aux = match celda_de(fila, sis.auxiliar) {
        Some(s) => jet_bool(s.as_str()),
        None => false,
    };
    columnas.push(String::from_str("_auxiliar_"));
    valores.push(ValorSql::Entero(if aux { 1 } else { 0 }));
    if principal {
        let tv = match celda_de(fila, sis.variantes) {
            Some(s) => jet_bool(s.as_str()),
            None => false,
        };
        columnas.push(String::from_str("_variantes_"));
        valores.push(ValorSql::Entero(if tv { 1 } else { 0 }));
    } else {
        match entero_de_celda(celda_de(fila, sis.idprincipal)) {
            Some(v) => {
                columnas.push(String::from_str("_idprincipal_"));
                valores.push(ValorSql::Entero(v));
            },
            None => {
                let mut aviso = String::from_str("variante en fila ");
                let num = cadena(decimal((n as u64) + 1).as_slice());
                aviso.append(num.as_str());
                aviso.append(" sin _idprincipal_ válido; omitida");
                return Err(aviso);
            },
        }
    }
    let ghost c0 = columnas@.map_values(|t: String| t@);
    let ghost v0 = vista_valores(valores@);
    let mut k: usize = 0;
    while k < idx.len()
        invariant
            k <= idx@.len(),
            vf == fila@.map_values(|t: String| t@),
            columnas@.map_values(|t: String| t@) == c0 + dinamicas(idx@.subrange(0, k as int), vf).0,
            vista_valores(valores@) == v0 + dinamicas(idx@.subrange(0, k as int), vf).1,
        decreases idx.len() - k,
    {
        let ghost sub = idx@.subrange(0, k + 1);
        assert(sub.drop_last() =~= idx@.subrange(0, k as int));
        let (i, c) = (idx[k].0, &idx[k].1);
        assert(sub.last() == idx@[k as int]);
        proof {
            reveal_strlit("");
        }
        let ghost dprev = dinamicas(idx@.subrange(0, k as int), vf);
        let ghost cprev = columnas@.map_values(|t: String| t@);
        let ghost vprev = vista_valores(valores@);
        if c.tipo != TipoCampo::Multidato {
            let ghost crudo = match celda(vf, Some(i)) {
                Some(t) => t,
                None => Seq::<char>::empty(),
            };
            let v = match celda_de(fila, Some(i)) {
                Some(t) => convertir_valor_sql(t.as_str(), c.tipo),
                None => convertir_valor_sql("", c.tipo),
            };
            assert(vista_valor(v) == valor_sql_spec(crudo, c.tipo));
            assert(dinamicas(sub, vf) == (dprev.0.push(c.col_fisica@), dprev.1.push(
                valor_sql_spec(crudo, c.tipo),
            )));
            columnas.push(c.col_fisica.clone());
            valores.push(v);
            assert(columnas@.map_values(|t: String| t@) =~= cprev.push(c.col_fisica@));
            assert(vista_valores(valores@) =~= vprev.push(vista_valor(v)));
        } else {
            assert(dinamicas(sub, vf) == dprev);
        }
        k += 1;
        assert(columnas@.map_values(|t: String| t@) =~= c0 + dinamicas(sub, vf).0);
        assert(vista_valores(valores@) =~= v0 + dinamicas(sub, vf).1);
    }
    assert(idx@.subrange(0, k as int) =~= idx@);
    Ok(Insercion { columnas, valores })
}

/// Inserciones y avisos de todas las filas, en orden: cada fila da su
/// inserción o su aviso (numerando las filas desde 1).
pub open spec fn preparados_spec(
    sis: ColumnasSistema,
    idx: Seq<(usize, CampoDef)>,
    filas: Seq<Seq<Seq<char>>>,
    principal: bool,
) -> (Seq<(Seq<Seq<char>>, Seq<ValorSqlSpec>)>, Seq<Seq<char>>)
    decreases filas.len(),
{
    if filas.len() == 0 {
        (Seq::empty(), Seq::empty())
    } else {
        let (ins, avisos) = preparados_spec(sis, idx, filas.drop_last(), principal);
        match insercion_spec(sis, idx, filas.last(), principal, filas.len()) {
            Ok(x) => (ins.push(x), avisos),
            Err(a) => (ins, avisos.push(a)),
        }
    }
}

/// Avisos de las filas de variantes sin id de registro principal válido,
/// numeradas desde 1.
pub open spec fn avisos_variantes(sis: ColumnasSistema, filas: Seq<Seq<Seq<char>>>) -> Seq<Seq<char>>
    decreases filas.len(),
{
    if filas.len() == 0 {
        Seq::empty()
    } else {
        let previo = avisos_variantes(sis, filas.drop_last());
        if entero_celda(celda(filas.last(), sis.idprincipal)) is None {
            previo.push(aviso_sin_principal(filas.len()))
        } else {
            previo
        }
    }
}

/// Cada fila de registros da una inserción o un aviso; las filas de la tabla
/// principal se insertan todas; una fila de variantes se omite, con el aviso
/// de su número, exactamente cuando no tiene un id de registro principal
/// entero.
pub proof fn ley_filas_de_registros(
    sis: ColumnasSistema,
    idx: Seq<(usize, CampoDef)>,
    filas: Seq<Seq<Seq<char>>>,
    principal: bool,
)
    ensures
        preparados_spec(sis, idx, filas, principal).0.len() + preparados_spec(sis, idx, filas, principal).1.len()
            == filas.len(),
        principal ==> preparados_spec(sis, idx, filas, principal).1.len() == 0,
        !principal ==> preparados_spec(sis, idx, filas, principal).1 == avisos_variantes(sis, filas),
    decreases filas.len(),
{
    if filas.len() > 0 {
        ley_filas_de_registros(sis, idx, filas.drop_last(), principal);
    }
}

/// Vista de una inserción.
pub open spec fn vista_insercion(i: Insercion) -> (Seq<Seq<char>>, Seq<ValorSqlSpec>) {
    (i.columnas@.map_values(|t: String| t@), vista_valores(i.valores@))
}

/// Prepara las inserciones de todas las filas de registros de una tabla
/// (`principal` o variantes) y los avisos de las filas omitidas.
pub fn preparar_registros(
    campos: &[CampoDef],
    datos: &TablaCsv,
    principal: bool,
    dir_mdb: &std::path::PathBuf,
) -> (r: (Vec<Insercion>, Vec<String>))
    requires
        datos.filas@.len() < u64::MAX,
    ensures
        ({
            let cab = vista_fila(datos.cabecera@);
            let e = preparados_spec(
                sistema_spec(cab),
                columnas_campos_spec(campos@, principal, cab),
                datos.filas@.map_values(|f: Vec<String>| vista_fila(f@)),
                principal,
            );
            &&& r.0@.map_values(|i: Insercion| vista_insercion(i)) == e.0
            &&& r.1@.map_values(|t: String| t@) == e.1
        }),
{
    let sis = columnas_sistema(datos);
    let idx = columnas_de_campos(campos, principal, datos);
    let ghost vfs = datos.filas@.map_values(|f: Vec<String>| vista_fila(f@));
    let mut ins: Vec<Insercion> = Vec::new();
    let mut avisos: Vec<String> = Vec::new();
    let mut n: usize = 0;
    while n < datos.filas.len()
        invariant
            n <= datos.filas@.len(),
            datos.filas@.len() < u64::MAX,
            vfs == datos.filas@.map_values(|f: Vec<String>| vista_fila(f@)),
            ins@.map_values(|i: Insercion| vista_insercion(i)) == preparados_spec(
                sis,
                idx@,
                vfs.subrange(0, n as int),
                principal,
            ).0,
            avisos@.map_values(|t: String| t@) == preparados_spec(
                sis,
                idx@,
                vfs.subrange(0, n as int),
                principal,
            ).1,
        decreases datos.filas.len() - n,
    {
        let ghost sub = vfs.subrange(0, n + 1);
        assert(sub.drop_last() =~= vfs.subrange(0, n as int));
        assert(sub.last() == datos.filas@[n as int]@.map_values(|t: String| t@));
        let ghost ip = ins@.map_values(|i: Insercion| vista_insercion(i));
        let ghost ap = avisos@.map_values(|t: String| t@);
        match fila_a_insercion(&sis, idx.as_slice(), datos.filas[n].as_slice(), principal, n, dir_mdb) {
            Ok(x) => {
                ins.push(x);
                assert(ins@.map_values(|i: Insercion| vista_insercion(i)) =~= ip.push(
                    vista_insercion(x),
                ));
            },
            Err(a) => {
                avisos.push(a);
                assert(avisos@.map_values(|t: String| t@) =~= ap.push(a@));
            },
        }
        n += 1;
    }
    assert(vfs.subrange(0, n as int) =~= vfs);
    (ins, avisos)
}

/// Sentencia de inserción en `tabla` con un parámetro numerado por columna:
/// `INSERT INTO t (a, b) VALUES (?1, ?2)`.
pub open spec fn sql_insercion_spec(tabla: Seq<char>, columnas: Seq<Seq<char>>) -> Seq<char> {
    "INSERT INTO "@ + tabla + " ("@ + unir_con_comas(columnas) + ") VALUES ("@ + marcadores(
        columnas.len(),
    ) + ")"@
}

/// Textos unidos por `, `.
pub open spec fn unir_con_comas(t: Seq<Seq<char>>) -> Seq<char>
    decreases t.len(),
{
    if t.len() == 0 {
        Seq::empty()
    } else if t.len() == 1 {
        t[0]
    } else {
        unir_con_comas(t.drop_last()) + ", "@ + t.last()
    }
}

/// `?1, ?2, …, ?n`.
pub open spec fn marcadores(n: nat) -> Seq<char>
    decreases n,
{
    if n == 0 {
        Seq::empty()
    } else if n == 1 {
        "?"@ + decimal_spec(1)
    } else {
        marcadores((n - 1) as nat) + ", ?"@ + decimal_spec(n)
    }
}

/// Sentencia `INSERT` con marcadores numerados para las columnas dadas.
pub fn sql_insercion(tabla: &str, columnas: &[String]) -> (r: String)
    requires
        columnas@.len() < u64::MAX,
    ensures
        r@ == sql_insercion_spec(tabla@, columnas@.map_values(|t: String| t@)),
{
    let ghost vc = columnas@.map_values(|t: String| t@);
    let mut cols = String::new();
    let mut marcas = String::new();
    let mut i: usize = 0;
    proof {
        reveal_strlit(", ");
        reveal_strlit(", ?");
        reveal_strlit("?");
    }
    while i < columnas.len()
        invariant
            i <= columnas@.len(),
            columnas@.len() < u64::MAX,
            vc == columnas@.map_values(|t: String| t@),
            cols@ == unir_con_comas(vc.subrange(0, i as int)),
            marcas@ == marcadores(i as nat),
        decreases columnas.len() - i,
    {
        let ghost sub = vc.subrange(0, i + 1);
        assert(sub.drop_last() =~= vc.subrange(0, i as int));
        if i > 0 {
            cols.append(", ");
            marcas.append(", ?");
        } else {
            marcas.append("?");
        }
        cols.append(columnas[i].as_str());
        let num = cadena(decimal((i + 1) as u64).as_slice());
        marcas.append(num.as_str());
        i += 1;
        assert(cols@ =~= unir_con_comas(sub));
    }
    assert(vc.subrange(0, i as int) =~= vc);
    let mut r = String::from_str("INSERT INTO ");
    r.append(tabla);
    r.append(" (");
    r.append(cols.as_str());
    r.append(") VALUES (");
    r.append(marcas.as_str());
    r.append(")");
    r
}

/// `c1 = ?1, c2 = ?2, …` para las columnas dadas.
pub open spec fn asignaciones(columnas: Seq<Seq<char>>) -> Seq<char>
    decreases columnas.len(),
{
    if columnas.len() == 0 {
        Seq::empty()
    } else {
        let n = columnas.len();
        let previas = asignaciones(columnas.drop_last());
        let esta = columnas.last() + " = ?"@ + decimal_spec(n);
        if n == 1 {
            esta
        } else {
            previas + ", "@ + esta
        }
    }
}

/// Sentencia de actualización de un registro de `tabla`: un parámetro
/// numerado por columna y el id en el siguiente:
/// `UPDATE t SET a = ?1, b = ?2 WHERE _id_ = ?3`.
pub open spec fn sql_actualizacion_spec(tabla: Seq<char>, columnas: Seq<Seq<char>>) -> Seq<char> {
    "UPDATE "@ + tabla + " SET "@ + asignaciones(columnas) + " WHERE _id_ = ?"@ + decimal_spec(
        columnas.len() + 1,
    )
}

/// Sentencia `UPDATE` con marcadores numerados para las columnas dadas y el
/// id del registro al final.
pub fn sql_actualizacion(tabla: &str, columnas: &[String]) -> (r: String)
    requires
        columnas@.len() + 1 < u64::MAX,
    ensures
        r@ == sql_actualizacion_spec(tabla@, columnas@.map_values(|t: String| t@)),
{
    let ghost vc = columnas@.map_values(|t: String| t@);
    let mut sets = String::new();
    let mut i: usize = 0;
    proof {
        reveal_strlit(", ");
        reveal_strlit(" = ?");
    }
    while i < columnas.len()
        invariant
            i <= columnas@.len(),
            columnas@.len() + 1 < u64::MAX,
            vc == columnas@.map_values(|t: String| t@),
            sets@ == asignaciones(vc.subrange(0, i as int)),
        decreases columnas.len() - i,
    {
        let ghost sub = vc.subrange(0, i + 1);
        assert(sub.drop_last() =~= vc.subrange(0, i as int));
        if i > 0 {
            sets.append(", ");
        }
        sets.append(columnas[i].as_str());
        sets.append(" = ?");
        let num = cadena(decimal((i + 1) as u64).as_slice());
        sets.append(num.as_str());
        i += 1;
        assert(sets@ =~= asignaciones(sub));
    }
    assert(vc.subrange(0, i as int) =~= vc);
    proof {
        reveal_strlit("UPDATE ");
        reveal_strlit(" SET ");
        reveal_strlit(" WHERE _id_ = ?");
    }
    let mut r = String::from_str("UPDATE ");
    r.append(tabla);
    r.append(" SET ");
    r.append(sets.as_str());
    r.append(" WHERE _id_ = ?");
    let num = cadena(decimal((columnas.len() as u64) + 1).as_slice());
    r.append(num.as_str());
    r
}

} // verus!
