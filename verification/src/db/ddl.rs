//! Sentencias de estructura de un campo: alta de su columna física (con
//! índice si el tipo es ordenable), conversión de sus datos al cambiar de
//! tipo y baja. Ejecutarlas queda fuera de la biblioteca verificada.

use vstd::prelude::*;
use vstd::string::*;
use crate::db::codigos::es_ordenable;
use crate::db::schema::{entero_texto, texto_entero};
use crate::model::{nombre_tabla_spec, tipo_sqlite, CampoDef, Tabla, TipoCampo};
use crate::texto::cadena;

verus! {

/// Nombre del índice de la columna `col` de la tabla `t`.
pub open spec fn nombre_indice(t: Seq<char>, col: Seq<char>) -> Seq<char> {
    "ix_"@ + t + "_"@ + col
}

/// `CREATE INDEX` de la columna.
pub open spec fn crear_indice_spec(t: Seq<char>, col: Seq<char>) -> Seq<char> {
    "CREATE INDEX IF NOT EXISTS "@ + nombre_indice(t, col) + " ON "@ + t + " ("@ + col + ");"@
}

/// `DROP INDEX` de la columna.
pub open spec fn borrar_indice_spec(t: Seq<char>, col: Seq<char>) -> Seq<char> {
    "DROP INDEX IF EXISTS "@ + nombre_indice(t, col) + ";"@
}

/// Sentencias del alta de la columna física `col` de tipo `tipo` en la
/// tabla: la columna, y su índice si el tipo es ordenable.
pub open spec fn alta_spec(tabla: Tabla, col: Seq<char>, tipo: TipoCampo) -> Seq<Seq<char>> {
    let t = nombre_tabla_spec(tabla);
    let alta = "ALTER TABLE "@ + t + " ADD COLUMN "@ + col + " "@ + tipo_sqlite(tipo) + ";"@;
    if tipo != TipoCampo::Multidato {
        seq![alta, crear_indice_spec(t, col)]
    } else {
        seq![alta]
    }
}

fn crear_indice(t: &str, col: &str) -> (r: String)
    ensures
        r@ == crear_indice_spec(t@, col@),
{
    let mut s = String::from_str("CREATE INDEX IF NOT EXISTS ix_");
    s.append(t);
    s.append("_");
    s.append(col);
    s.append(" ON ");
    s.append(t);
    s.append(" (");
    s.append(col);
    s.append(");");
    proof {
        reveal_strlit("CREATE INDEX IF NOT EXISTS ix_");
        reveal_strlit("CREATE INDEX IF NOT EXISTS ");
        reveal_strlit("ix_");
    }
    assert(s@ =~= crear_indice_spec(t@, col@));
    s
}

fn borrar_indice(t: &str, col: &str) -> (r: String)
    ensures
        r@ == borrar_indice_spec(t@, col@),
{
    let mut s = String::from_str("DROP INDEX IF EXISTS ix_");
    s.append(t);
    s.append("_");
    s.append(col);
    s.append(";");
    proof {
        reveal_strlit("DROP INDEX IF EXISTS ix_");
        reveal_strlit("DROP INDEX IF EXISTS ");
        reveal_strlit("ix_");
    }
    assert(s@ =~= borrar_indice_spec(t@, col@));
    s
}

/// Sentencias que dan de alta la columna física de un campo nuevo.
pub fn sentencias_alta(tabla: Tabla, col: &str, tipo: TipoCampo) -> (r: Vec<String>)
    ensures
        r@.map_values(|s: String| s@) == alta_spec(tabla, col@, tipo),
{
    let t = tabla.nombre();
    let mut alta = String::from_str("ALTER TABLE ");
    alta.append(t);
    alta.append(" ADD COLUMN ");
    alta.append(col);
    alta.append(" ");
    alta.append(tipo.sqlite_type());
    alta.append(";");
    let mut r: Vec<String> = Vec::new();
    r.push(alta);
    if es_ordenable(tipo) {
        r.push(crear_indice(t, col));
    }
    assert(r@.map_values(|s: String| s@) =~= alta_spec(tabla, col@, tipo));
    r
}

/// Sentencias que rehacen el índice de la columna tras cambiar su tipo.
pub open spec fn reindexado_spec(tabla: Tabla, col: Seq<char>, nuevo: TipoCampo) -> Seq<Seq<char>> {
    let t = nombre_tabla_spec(tabla);
    if nuevo != TipoCampo::Multidato {
        seq![borrar_indice_spec(t, col), crear_indice_spec(t, col)]
    } else {
        seq![borrar_indice_spec(t, col)]
    }
}

/// Sentencias que rehacen el índice de la columna para el nuevo tipo.
pub fn sentencias_reindexado(tabla: Tabla, col: &str, nuevo: TipoCampo) -> (r: Vec<String>)
    ensures
        r@.map_values(|s: String| s@) == reindexado_spec(tabla, col@, nuevo),
{
    let t = tabla.nombre();
    let mut r: Vec<String> = Vec::new();
    r.push(borrar_indice(t, col));
    if es_ordenable(nuevo) {
        r.push(crear_indice(t, col));
    }
    assert(r@.map_values(|s: String| s@) =~= reindexado_spec(tabla, col@, nuevo));
    r
}

/// Sentencias de la baja de la columna física: su índice y la columna.
pub open spec fn baja_spec(tabla: Tabla, col: Seq<char>) -> Seq<Seq<char>> {
    let t = nombre_tabla_spec(tabla);
    seq![borrar_indice_spec(t, col), "ALTER TABLE "@ + t + " DROP COLUMN "@ + col + ";"@]
}

/// Sentencias que dan de baja la columna física de un campo.
pub fn sentencias_baja(tabla: Tabla, col: &str) -> (r: Vec<String>)
    ensures
        r@.map_values(|s: String| s@) == baja_spec(tabla, col@),
{
    let t = tabla.nombre();
    let mut baja = String::from_str("ALTER TABLE ");
    baja.append(t);
    baja.append(" DROP COLUMN ");
    baja.append(col);
    baja.append(";");
    let mut r: Vec<String> = Vec::new();
    r.push(borrar_indice(t, col));
    r.push(baja);
    assert(r@.map_values(|s: String| s@) =~= baja_spec(tabla, col@));
    r
}

/// Cómo se convierten los datos de un campo al cambiar de tipo.
pub enum Conversion {
    /// A multidato: cada valor no vacío pasa a la tabla `multidatos`
    /// (`insertar`, con `?1` = principal y `?2` = id del campo) y la columna
    /// guarda el conteo (`conteo`).
    AMultidato { insertar: String, conteo: String },
    /// Desde multidato: la columna toma el primer valor de cada registro.
    DesdeMultidato(String),
    /// Entre tipos escalares.
    Escalar(String),
}

/// Vista de una conversión.
pub enum ConversionSpec {
    AMultidato(Seq<char>, Seq<char>),
    DesdeMultidato(Seq<char>),
    Escalar(Seq<char>),
}

pub open spec fn vista_conversion(c: Conversion) -> ConversionSpec {
    match c {
        Conversion::AMultidato { insertar, conteo } => ConversionSpec::AMultidato(insertar@, conteo@),
        Conversion::DesdeMultidato(s) => ConversionSpec::DesdeMultidato(s@),
        Conversion::Escalar(s) => ConversionSpec::Escalar(s@),
    }
}

/// Expresión que toma un valor de multidato como el nuevo tipo.
pub open spec fn expr_desde_multidato(nuevo: TipoCampo) -> Seq<char> {
    if nuevo == TipoCampo::Numerico || nuevo == TipoCampo::Moneda || nuevo == TipoCampo::Calculado {
        "CAST(m.valor AS REAL)"@
    } else if nuevo == TipoCampo::Fecha {
        "substr(m.valor, 1, 10)"@
    } else {
        "m.valor"@
    }
}

/// Conversión de los datos del campo `c` al tipo `nuevo`: a multidato se
/// vuelca cada valor no vacío y la columna pasa a guardar el conteo (1 o 0);
/// desde multidato se toma el primer valor de cada registro; a número,
/// `CAST` a real; a texto, `CAST` a texto; a fecha se conservan los primeros
/// diez caracteres de lo que SQLite reconoce como fecha y el resto se anula.
pub open spec fn conversion_spec(c: CampoDef, nuevo: TipoCampo) -> ConversionSpec {
    let t = nombre_tabla_spec(c.tabla);
    let col = c.col_fisica@;
    if nuevo == TipoCampo::Multidato {
        ConversionSpec::AMultidato(
            "INSERT INTO multidatos (reg_id, principal, campo_id, valor) SELECT _id_, ?1, ?2, CAST("@
                + col + " AS TEXT) FROM "@ + t + " WHERE "@ + col + " IS NOT NULL AND TRIM(CAST("@
                + col + " AS TEXT)) <> '';"@,
            "UPDATE "@ + t + " SET "@ + col + " = CASE WHEN "@ + col
                + " IS NOT NULL AND TRIM(CAST("@ + col + " AS TEXT)) <> '' THEN 1 ELSE 0 END;"@,
        )
    } else if c.tipo == TipoCampo::Multidato {
        ConversionSpec::DesdeMultidato(
            "UPDATE "@ + t + " SET "@ + col + " = ( SELECT "@ + expr_desde_multidato(nuevo)
                + " FROM multidatos m WHERE m.reg_id = "@ + t + "._id_ AND m.campo_id = "@
                + entero_texto(c.id as int) + " AND m.principal = "@ + (if c.tabla
                == Tabla::Principal {
                "1"@
            } else {
                "0"@
            }) + " ORDER BY m.rowid LIMIT 1 );"@,
        )
    } else if nuevo == TipoCampo::Texto {
        ConversionSpec::Escalar(
            "UPDATE "@ + t + " SET "@ + col + " = CAST("@ + col + " AS TEXT) WHERE "@ + col
                + " IS NOT NULL;"@,
        )
    } else if nuevo == TipoCampo::Fecha {
        ConversionSpec::Escalar(
            "UPDATE "@ + t + " SET "@ + col + " = CASE WHEN date("@ + col
                + ") IS NOT NULL THEN substr(CAST("@ + col + " AS TEXT), 1, 10) ELSE NULL END WHERE "@
                + col + " IS NOT NULL;"@,
        )
    } else {
        ConversionSpec::Escalar(
            "UPDATE "@ + t + " SET "@ + col + " = CAST("@ + col + " AS REAL) WHERE "@ + col
                + " IS NOT NULL;"@,
        )
    }
}

/// Sentencias que convierten los datos de `campo` a `nuevo` tipo.
pub fn conversion(campo: &CampoDef, nuevo: TipoCampo) -> (r: Conversion)
    ensures
        vista_conversion(r) == conversion_spec(*campo, nuevo),
{
    let t = campo.tabla.nombre();
    let col = campo.col_fisica.as_str();
    if nuevo == TipoCampo::Multidato {
        let mut ins = String::from_str(
            "INSERT INTO multidatos (reg_id, principal, campo_id, valor) SELECT _id_, ?1, ?2, CAST(",
        );
        ins.append(col);
        ins.append(" AS TEXT) FROM ");
        ins.append(t);
        ins.append(" WHERE ");
        ins.append(col);
        ins.append(" IS NOT NULL AND TRIM(CAST(");
        ins.append(col);
        ins.append(" AS TEXT)) <> '';");
        let mut cnt = String::from_str("UPDATE ");
        cnt.append(t);
        cnt.append(" SET ");
        cnt.append(col);
        cnt.append(" = CASE WHEN ");
        cnt.append(col);
        cnt.append(" IS NOT NULL AND TRIM(CAST(");
        cnt.append(col);
        cnt.append(" AS TEXT)) <> '' THEN 1 ELSE 0 END;");
        return Conversion::AMultidato { insertar: ins, conteo: cnt };
    }
    if campo.tipo == TipoCampo::Multidato {
        let expr = if nuevo == TipoCampo::Numerico || nuevo == TipoCampo::Moneda || nuevo
            == TipoCampo::Calculado {
            "CAST(m.valor AS REAL)"
        } else if nuevo == TipoCampo::Fecha {
            "substr(m.valor, 1, 10)"
        } else {
            "m.valor"
        };
        let mut s = String::from_str("UPDATE ");
        s.append(t);
        s.append(" SET ");
        s.append(col);
        s.append(" = ( SELECT ");
        s.append(expr);
        s.append(" FROM multidatos m WHERE m.reg_id = ");
        s.append(t);
        s.append("._id_ AND m.campo_id = ");
        s.append(cadena(texto_entero(campo.id).as_slice()).as_str());
        s.append(" AND m.principal = ");
        s.append(
            if campo.tabla == Tabla::Principal {
                "1"
            } else {
                "0"
            },
        );
        s.append(" ORDER BY m.rowid LIMIT 1 );");
        return Conversion::DesdeMultidato(s);
    }
    let mut s = String::from_str("UPDATE ");
    s.append(t);
    s.append(" SET ");
    s.append(col);
    if nuevo == TipoCampo::Texto {
        s.append(" = CAST(");
        s.append(col);
        s.append(" AS TEXT) WHERE ");
    } else if nuevo == TipoCampo::Fecha {
        s.append(" = CASE WHEN date(");
        s.append(col);
        s.append(") IS NOT NULL THEN substr(CAST(");
        s.append(col);
        s.append(" AS TEXT), 1, 10) ELSE NULL END WHERE ");
    } else {
        s.append(" = CAST(");
        s.append(col);
        s.append(" AS REAL) WHERE ");
    }
    s.append(col);
    s.append(" IS NOT NULL;");
    Conversion::Escalar(s)
}

} // verus!
