//! Análisis con roles: varios roles leen las mismas notas, cada uno desde su
//! enfoque, y una síntesis lo junta en un informe único. Aquí viven los roles
//! de serie, la validación de los propios, la resolución de los roles que
//! pide un informe, la elección de modelo y la composición del informe.

use vstd::prelude::*;
use crate::llm::{recortar_adornos_spec, NotaFuente};
use crate::notas::{clave, clave_spec, notas_de_origen, notas_de_origen_spec, rechazar, rechazo, Rechazo};
use crate::texto::{
    anadir_decimal, anadir_str, bordes, caracteres, colapsado, colapsar, decimal, iguales,
    lineas, lineas_de, primeros, primeros_de, recortado, recortar, sin_bordes, texto, texto_de, unir,
    unir_de, unir_strings, vistas, vistas_str, Clase,
};

verus! {

/// Un rol que viene con la aplicación. Viven en el código, no en la base,
/// para que mejoren con cada versión sin migrar nada.
#[derive(Clone, Copy)]
pub struct DeSerie {
    pub id: &'static str,
    pub icono: &'static str,
    pub nombre: &'static str,
    pub enfoque: &'static str,
}

/// Cuántos roles de serie hay.
pub const NUMERO_DE_SERIE: usize = 9;

/// El rol de serie `i` (desde cero).
pub open spec fn serie(i: int) -> DeSerie {
    if i == 0 {
        DeSerie {
            id: "critico",
            icono: "🧐",
            nombre: "Crítico",
            enfoque: "Abogado del diablo: busca los puntos débiles, los supuestos que se dan por buenos sin prueba, lo que falta y qué puede salir mal. No suavices: si algo no se sostiene, dilo.",
        }
    } else if i == 1 {
        DeSerie {
            id: "analitico",
            icono: "📊",
            nombre: "Analítico",
            enfoque: "Ordena el material: agrupa las ideas en bloques, detecta huecos, contradicciones entre notas y datos que faltan para decidir, y di qué nota dice cada cosa.",
        }
    } else if i == 2 {
        DeSerie {
            id: "economico",
            icono: "💶",
            nombre: "Económico",
            enfoque: "Costes, ingresos, modelo de negocio y viabilidad económica. Da órdenes de magnitud cuando puedas y señala qué cifras faltan para decidir.",
        }
    } else if i == 3 {
        DeSerie {
            id: "marketing",
            icono: "📣",
            nombre: "Marketing",
            enfoque: "Público objetivo, propuesta de valor, posicionamiento, canales para llegar a él y competencia. Cómo se explicaría en una frase y a quién.",
        }
    } else if i == 4 {
        DeSerie {
            id: "usabilidad",
            icono: "🧭",
            nombre: "Usabilidad",
            enfoque: "Recorrido del usuario, fricciones, accesibilidad y uso real en el móvil: dónde se atasca alguien que lo usa por primera vez.",
        }
    } else if i == 5 {
        DeSerie {
            id: "tecnico",
            icono: "🛠",
            nombre: "Técnico",
            enfoque: "Arquitectura, complejidad, riesgos técnicos, dependencias y qué conviene no construir porque ya existe.",
        }
    } else if i == 6 {
        DeSerie {
            id: "legal",
            icono: "⚖️",
            nombre: "Legal y privacidad",
            enfoque: "Protección de datos (RGPD), consentimiento, pagos, propiedad intelectual y condiciones de uso: qué obligaciones aparecen y cómo cumplirlas sin frenar el proyecto.",
        }
    } else if i == 7 {
        DeSerie {
            id: "producto",
            icono: "🎯",
            nombre: "Producto",
            enfoque: "Qué entra en la primera versión, en qué orden y qué se deja fuera; cómo se mide si funciona.",
        }
    } else {
        DeSerie {
            id: "usuario",
            icono: "👤",
            nombre: "Usuario final",
            enfoque: "Ponte en la piel de quien lo va a usar: qué le convence, qué le molesta, qué no entiende y qué le haría dejarlo. Habla en primera persona cuando ayude.",
        }
    }
}

/// El rol de serie `i` (desde cero).
pub fn rol_de_serie(i: usize) -> (r: DeSerie)
    requires
        i < NUMERO_DE_SERIE,
    ensures
        r == serie(i as int),
{
    if i == 0 {
        DeSerie {
            id: "critico",
            icono: "🧐",
            nombre: "Crítico",
            enfoque: "Abogado del diablo: busca los puntos débiles, los supuestos que se dan por buenos sin prueba, lo que falta y qué puede salir mal. No suavices: si algo no se sostiene, dilo.",
        }
    } else if i == 1 {
        DeSerie {
            id: "analitico",
            icono: "📊",
            nombre: "Analítico",
            enfoque: "Ordena el material: agrupa las ideas en bloques, detecta huecos, contradicciones entre notas y datos que faltan para decidir, y di qué nota dice cada cosa.",
        }
    } else if i == 2 {
        DeSerie {
            id: "economico",
            icono: "💶",
            nombre: "Económico",
            enfoque: "Costes, ingresos, modelo de negocio y viabilidad económica. Da órdenes de magnitud cuando puedas y señala qué cifras faltan para decidir.",
        }
    } else if i == 3 {
        DeSerie {
            id: "marketing",
            icono: "📣",
            nombre: "Marketing",
            enfoque: "Público objetivo, propuesta de valor, posicionamiento, canales para llegar a él y competencia. Cómo se explicaría en una frase y a quién.",
        }
    } else if i == 4 {
        DeSerie {
            id: "usabilidad",
            icono: "🧭",
            nombre: "Usabilidad",
            enfoque: "Recorrido del usuario, fricciones, accesibilidad y uso real en el móvil: dónde se atasca alguien que lo usa por primera vez.",
        }
    } else if i == 5 {
        DeSerie {
            id: "tecnico",
            icono: "🛠",
            nombre: "Técnico",
            enfoque: "Arquitectura, complejidad, riesgos técnicos, dependencias y qué conviene no construir porque ya existe.",
        }
    } else if i == 6 {
        DeSerie {
            id: "legal",
            icono: "⚖️",
            nombre: "Legal y privacidad",
            enfoque: "Protección de datos (RGPD), consentimiento, pagos, propiedad intelectual y condiciones de uso: qué obligaciones aparecen y cómo cumplirlas sin frenar el proyecto.",
        }
    } else if i == 7 {
        DeSerie {
            id: "producto",
            icono: "🎯",
            nombre: "Producto",
            enfoque: "Qué entra en la primera versión, en qué orden y qué se deja fuera; cómo se mide si funciona.",
        }
    } else {
        DeSerie {
            id: "usuario",
            icono: "👤",
            nombre: "Usuario final",
            enfoque: "Ponte en la piel de quien lo va a usar: qué le convence, qué le molesta, qué no entiende y qué le haría dejarlo. Habla en primera persona cuando ayude.",
        }
    }
}

/// Todos los roles de serie, en orden.
pub fn de_serie_todos() -> (r: Vec<DeSerie>)
    ensures
        r@.len() == NUMERO_DE_SERIE,
        forall|i: int| 0 <= i < NUMERO_DE_SERIE ==> r@[i] == serie(i),
{
    let mut r: Vec<DeSerie> = Vec::new();
    let mut i: usize = 0;
    while i < NUMERO_DE_SERIE
        invariant
            i <= NUMERO_DE_SERIE,
            r@.len() == i,
            forall|j: int| 0 <= j < i ==> r@[j] == serie(j),
        decreases NUMERO_DE_SERIE - i,
    {
        r.push(rol_de_serie(i));
        i = i + 1;
    }
    r
}

/// El rol de serie con ese id, si lo hay.
pub fn de_serie(id: &str) -> (r: Option<DeSerie>)
    ensures
        match r {
            Some(d) => exists|i: int|
                0 <= i < NUMERO_DE_SERIE && d == serie(i) && serie(i).id@ == id@ && forall|j: int|
                    0 <= j < i ==> serie(j).id@ != id@,
            None => forall|i: int| 0 <= i < NUMERO_DE_SERIE ==> serie(i).id@ != id@,
        },
{
    let mut i: usize = 0;
    while i < NUMERO_DE_SERIE
        invariant
            i <= NUMERO_DE_SERIE,
            forall|j: int| 0 <= j < i ==> serie(j).id@ != id@,
        decreases NUMERO_DE_SERIE - i,
    {
        let d = rol_de_serie(i);
        let v = caracteres(d.id);
        assert(v@.subrange(0, v@.len() as int) == v@);
        let w = caracteres(id);
        if crate::llm::mismos(&v, &w) {
            return Some(d);
        }
        i = i + 1;
    }
    None
}

/// Un nombre propio no puede coincidir, como clave, con el de uno de serie.
pub open spec fn choca_con_serie_spec(nombre: Seq<char>) -> bool {
    exists|i: int| 0 <= i < NUMERO_DE_SERIE && clave_spec(serie(i).nombre@) == clave_spec(nombre)
}

/// Si el nombre coincide, como clave, con el de un rol de serie.
pub fn choca_con_serie(nombre: &str) -> (r: bool)
    ensures
        r == choca_con_serie_spec(nombre@),
{
    let c = clave(nombre);
    let cv = caracteres(c.as_str());
    let mut i: usize = 0;
    while i < NUMERO_DE_SERIE
        invariant
            i <= NUMERO_DE_SERIE,
            cv@ == clave_spec(nombre@),
            forall|j: int| 0 <= j < i ==> clave_spec(serie(j).nombre@) != clave_spec(nombre@),
        decreases NUMERO_DE_SERIE - i,
    {
        let d = rol_de_serie(i);
        let k = clave(d.nombre);
        let kv = caracteres(k.as_str());
        if crate::llm::mismos(&kv, &cv) {
            return true;
        }
        i = i + 1;
    }
    false
}

/// Un rol como lo ve la app: de serie o propio.
pub struct Rol {
    pub id: String,
    pub nombre: String,
    pub icono: String,
    pub enfoque: String,
    pub propio: bool,
}

/// Un rol propio tal y como lo manda la app.
pub struct NuevoRol {
    pub nombre: String,
    pub icono: String,
    pub enfoque: String,
}

/// Lo que se copia de un rol en el informe: si luego se edita o se borra el
/// rol, el informe no cambia.
pub struct RolCopia {
    pub id: String,
    pub nombre: String,
    pub icono: String,
    pub enfoque: String,
}

pub const MENSAJE_NOMBRE_ROL: &'static str = "el nombre tiene que tener entre 1 y 30 caracteres";

pub const MENSAJE_ENFOQUE_ROL: &'static str = "«qué mira este rol» tiene que tener entre 1 y 600 caracteres";

/// Nombre con los espacios colapsados (1 a 30 caracteres), enfoque sin
/// blancos en los bordes (1 a 600) e icono de hasta 8 caracteres (un emoji
/// puede ser varios), 🧪 si no viene.
pub open spec fn rol_valido_spec(nombre: Seq<char>, icono: Seq<char>, enfoque: Seq<char>) -> Result<
    (Seq<char>, Seq<char>, Seq<char>),
    Seq<char>,
> {
    let n = colapsar(nombre);
    let e = recortar(enfoque);
    let i = primeros(recortar(icono), 8);
    if n.len() == 0 || n.len() > 30 {
        Err(MENSAJE_NOMBRE_ROL@)
    } else if e.len() == 0 || e.len() > 600 {
        Err(MENSAJE_ENFOQUE_ROL@)
    } else {
        Ok((
            n,
            if i.len() == 0 {
                "🧪"@
            } else {
                i
            },
            e,
        ))
    }
}

pub open spec fn vista_trio(r: Result<(String, String, String), &str>) -> Result<
    (Seq<char>, Seq<char>, Seq<char>),
    Seq<char>,
> {
    match r {
        Ok((a, b, c)) => Ok((a@, b@, c@)),
        Err(e) => Err(e@),
    }
}

/// Nombre, icono y enfoque ya normalizados, o el motivo del 400.
pub fn rol_valido(n: &NuevoRol) -> (r: Result<(String, String, String), &'static str>)
    ensures
        vista_trio(r) == rol_valido_spec(n.nombre@, n.icono@, n.enfoque@),
{
    let nombre = colapsado(n.nombre.as_str());
    let largo = nombre.as_str().unicode_len();
    if largo == 0 || largo > 30 {
        return Err(MENSAJE_NOMBRE_ROL);
    }
    let enfoque = recortado(n.enfoque.as_str());
    let le = enfoque.as_str().unicode_len();
    if le == 0 || le > 600 {
        return Err(MENSAJE_ENFOQUE_ROL);
    }
    let t = recortado(n.icono.as_str());
    let icono = primeros_de(t.as_str(), 8);
    let icono = if icono.as_str().unicode_len() == 0 {
        String::from_str("🧪")
    } else {
        icono
    };
    Ok((nombre, icono, enfoque))
}

/// Un rol propio nuevo o editado: nombre, icono y enfoque válidos (si no, un
/// 400 con el motivo), y un nombre que no sea, como clave, el de uno de
/// serie (si no, un 409).
pub fn rol_propio(n: &NuevoRol) -> (r: Result<(String, String, String), Rechazo>)
    ensures
        match rol_valido_spec(n.nombre@, n.icono@, n.enfoque@) {
            Err(m) => r matches Err(e) && e.estado == 400 && e.mensaje@ == m,
            Ok((nombre, icono, enfoque)) => if choca_con_serie_spec(nombre) {
                r matches Err(e) && e.estado == 409 && e.mensaje@
                    == "ya hay un rol de serie con ese nombre"@
            } else {
                r matches Ok((a, b, c)) && a@ == nombre && b@ == icono && c@ == enfoque
            },
        },
{
    let (nombre, icono, enfoque) = match rol_valido(n) {
        Ok(v) => v,
        Err(m) => return Err(rechazar(400, m)),
    };
    if choca_con_serie(nombre.as_str()) {
        return Err(rechazar(409, "ya hay un rol de serie con ese nombre"));
    }
    Ok((nombre, icono, enfoque))
}

/// Si `id` es el de un rol de serie.
pub open spec fn es_de_serie(id: Seq<char>) -> bool {
    exists|i: int| 0 <= i < NUMERO_DE_SERIE && serie(i).id@ == id
}

/// Un rol de serie no se edita: se duplica como propio.
pub fn rol_editable(id: &str) -> (r: Result<(), Rechazo>)
    ensures
        match r {
            Ok(()) => !es_de_serie(id@),
            Err(e) => es_de_serie(id@) && rechazo(
                e,
                400,
                "los roles de serie no se editan: duplícalo como propio"@,
            ),
        },
{
    if de_serie(id).is_some() {
        Err(rechazar(400, "los roles de serie no se editan: duplícalo como propio"))
    } else {
        Ok(())
    }
}

/// Un rol de serie no se borra.
pub fn rol_borrable(id: &str) -> (r: Result<(), Rechazo>)
    ensures
        match r {
            Ok(()) => !es_de_serie(id@),
            Err(e) => es_de_serie(id@) && rechazo(e, 400, "los roles de serie no se borran"@),
        },
{
    if de_serie(id).is_some() {
        Err(rechazar(400, "los roles de serie no se borran"))
    } else {
        Ok(())
    }
}

/// Los roles de serie como los ve la app, en su orden y marcados como no propios.
pub fn roles_de_serie() -> (r: Vec<Rol>)
    ensures
        r@.len() == NUMERO_DE_SERIE,
        forall|i: int|
            0 <= i < NUMERO_DE_SERIE ==> {
                &&& (#[trigger] r@[i]).id@ == serie(i).id@
                &&& r@[i].nombre@ == serie(i).nombre@
                &&& r@[i].icono@ == serie(i).icono@
                &&& r@[i].enfoque@ == serie(i).enfoque@
                &&& !r@[i].propio
            },
{
    let mut r: Vec<Rol> = Vec::new();
    let mut i: usize = 0;
    while i < NUMERO_DE_SERIE
        invariant
            i <= NUMERO_DE_SERIE,
            r@.len() == i,
            forall|j: int|
                0 <= j < i ==> {
                    &&& (#[trigger] r@[j]).id@ == serie(j).id@
                    &&& r@[j].nombre@ == serie(j).nombre@
                    &&& r@[j].icono@ == serie(j).icono@
                    &&& r@[j].enfoque@ == serie(j).enfoque@
                    &&& !r@[j].propio
                },
        decreases NUMERO_DE_SERIE - i,
    {
        let d = rol_de_serie(i);
        r.push(
            Rol {
                id: String::from_str(d.id),
                nombre: String::from_str(d.nombre),
                icono: String::from_str(d.icono),
                enfoque: String::from_str(d.enfoque),
                propio: false,
            },
        );
        i = i + 1;
    }
    r
}

} // verus!

verus! {

// ---------------------------------------------------------------------------
// Los roles que pide un informe.
// ---------------------------------------------------------------------------

/// Tope de roles por informe: más encarecen y alargan el informe sin añadir mucho.
pub const MAXIMO_ROLES: usize = 8;

pub open spec fn vista_copia(r: RolCopia) -> (Seq<char>, Seq<char>, Seq<char>, Seq<char>) {
    (r.id@, r.nombre@, r.icono@, r.enfoque@)
}

pub open spec fn vistas_copias(v: Seq<RolCopia>) -> Seq<(Seq<char>, Seq<char>, Seq<char>, Seq<char>)> {
    v.map_values(|r: RolCopia| vista_copia(r))
}

/// El primer rol de serie (de los `k` primeros) con ese id, o `-1`.
pub open spec fn primera_serie(id: Seq<char>, k: int) -> int
    decreases k,
{
    if k <= 0 {
        -1
    } else {
        let r = primera_serie(id, k - 1);
        if r >= 0 {
            r
        } else if serie(k - 1).id@ == id {
            k - 1
        } else {
            -1
        }
    }
}

/// El primer rol propio con ese id, o `-1`.
pub open spec fn primer_propio(ps: Seq<RolCopia>, id: Seq<char>) -> int
    decreases ps.len(),
{
    if ps.len() == 0 {
        -1
    } else {
        let r = primer_propio(ps.drop_last(), id);
        if r >= 0 {
            r
        } else if ps.last().id@ == id {
            ps.len() - 1
        } else {
            -1
        }
    }
}

/// La copia de un rol pedido: de serie si el id es de uno de serie; si no,
/// el propio con ese id; si no hay ninguno, nada.
pub open spec fn resolver_spec(id: Seq<char>, propios: Seq<RolCopia>) -> Option<
    (Seq<char>, Seq<char>, Seq<char>, Seq<char>),
> {
    let i = primera_serie(id, NUMERO_DE_SERIE as int);
    if i >= 0 {
        Some((id, serie(i).nombre@, serie(i).icono@, serie(i).enfoque@))
    } else {
        let j = primer_propio(propios, id);
        if j >= 0 {
            Some((id, propios[j].nombre@, propios[j].icono@, propios[j].enfoque@))
        } else {
            None
        }
    }
}

/// Las copias de los roles pedidos, en orden; el primero que no existe es el error.
pub open spec fn resueltos(ids: Seq<Seq<char>>, propios: Seq<RolCopia>) -> Result<
    Seq<(Seq<char>, Seq<char>, Seq<char>, Seq<char>)>,
    Seq<char>,
>
    decreases ids.len(),
{
    if ids.len() == 0 {
        Ok(seq![])
    } else {
        match resueltos(ids.drop_last(), propios) {
            Err(e) => Err(e),
            Ok(rs) => match resolver_spec(ids.last(), propios) {
                None => Err("el rol "@ + ids.last() + " no existe"@),
                Some(c) => Ok(rs.push(c)),
            },
        }
    }
}

/// Los roles que pide un informe, resueltos y copiados: sin repetidos, de 1 a
/// 8, y cada uno tiene que existir (de serie o entre los propios).
pub open spec fn roles_pedidos_spec(ids: Seq<Seq<char>>, propios: Seq<RolCopia>) -> Result<
    Seq<(Seq<char>, Seq<char>, Seq<char>, Seq<char>)>,
    Seq<char>,
> {
    let v = crate::notas::unicos(ids);
    if v.len() == 0 {
        Err("elige al menos un rol"@)
    } else if v.len() > MAXIMO_ROLES {
        Err("demasiados roles ("@ + decimal(v.len()) + "), el máximo es 8"@)
    } else {
        resueltos(v, propios)
    }
}

pub open spec fn vista_roles(r: Result<Vec<RolCopia>, Rechazo>) -> Result<
    Seq<(Seq<char>, Seq<char>, Seq<char>, Seq<char>)>,
    Seq<char>,
> {
    match r {
        Ok(v) => Ok(vistas_copias(v@)),
        Err(e) => Err(e.mensaje@),
    }
}

fn textos_iguales(a: &str, b: &str) -> (r: bool)
    ensures
        r == (a@ == b@),
{
    let v = caracteres(a);
    let w = caracteres(b);
    crate::llm::mismos(&v, &w)
}

fn resolver(id: &String, propios: &Vec<RolCopia>) -> (r: Option<RolCopia>)
    ensures
        match r {
            Some(c) => resolver_spec(id@, propios@) == Some(vista_copia(c)),
            None => resolver_spec(id@, propios@) is None,
        },
{
    let mut i: usize = 0;
    while i < NUMERO_DE_SERIE
        invariant
            i <= NUMERO_DE_SERIE,
            primera_serie(id@, i as int) == -1,
        decreases NUMERO_DE_SERIE - i,
    {
        let d = rol_de_serie(i);
        if textos_iguales(d.id, id.as_str()) {
            proof {
                lema_primera_serie(id@, i as int, NUMERO_DE_SERIE as int);
            }
            return Some(
                RolCopia {
                    id: id.clone(),
                    nombre: String::from_str(d.nombre),
                    icono: String::from_str(d.icono),
                    enfoque: String::from_str(d.enfoque),
                },
            );
        }
        i = i + 1;
    }
    let mut j: usize = 0;
    while j < propios.len()
        invariant
            j <= propios.len(),
            primera_serie(id@, NUMERO_DE_SERIE as int) == -1,
            primer_propio(propios@.take(j as int), id@) == -1,
        decreases propios.len() - j,
    {
        assert(propios@.take(j + 1).drop_last() =~= propios@.take(j as int));
        if textos_iguales(propios[j].id.as_str(), id.as_str()) {
            proof {
                lema_primer_propio(propios@, id@, j as int);
            }
            return Some(
                RolCopia {
                    id: id.clone(),
                    nombre: propios[j].nombre.clone(),
                    icono: propios[j].icono.clone(),
                    enfoque: propios[j].enfoque.clone(),
                },
            );
        }
        j = j + 1;
    }
    assert(propios@.take(propios@.len() as int) =~= propios@);
    None
}

proof fn lema_primera_serie(id: Seq<char>, i: int, k: int)
    requires
        0 <= i < k,
        primera_serie(id, i) == -1,
        serie(i).id@ == id,
    ensures
        primera_serie(id, k) == i,
    decreases k,
{
    if k > i + 1 {
        lema_primera_serie(id, i, k - 1);
    }
}

proof fn lema_primer_propio(ps: Seq<RolCopia>, id: Seq<char>, j: int)
    requires
        0 <= j < ps.len(),
        primer_propio(ps.take(j), id) == -1,
        ps[j].id@ == id,
    ensures
        primer_propio(ps, id) == j,
    decreases ps.len(),
{
    if ps.len() > j + 1 {
        assert(ps.drop_last().take(j) =~= ps.take(j));
        lema_primer_propio(ps.drop_last(), id, j);
    } else {
        assert(ps.drop_last() =~= ps.take(j));
    }
}

/// Los roles que pide un informe, resueltos y copiados contra los de serie y
/// los propios: sin repetidos, de 1 a 8, y cada uno tiene que existir.
pub fn roles_pedidos(ids: &Vec<String>, propios: &Vec<RolCopia>) -> (r: Result<Vec<RolCopia>, Rechazo>)
    ensures
        vista_roles(r) == roles_pedidos_spec(vistas_str(ids@), propios@),
        r matches Err(e) ==> e.estado == 400,
{
    let v = crate::notas::ids_unicos(ids);
    if v.len() == 0 {
        return Err(rechazar(400, "elige al menos un rol"));
    }
    if v.len() > MAXIMO_ROLES {
        let mut m = String::from_str("demasiados roles (");
        anadir_decimal(&mut m, v.len() as u64);
        anadir_str(&mut m, "), el máximo es 8");
        return Err(Rechazo { estado: 400, mensaje: m });
    }
    let mut copias: Vec<RolCopia> = Vec::new();
    let mut i: usize = 0;
    assert(vistas_str(v@).take(0) =~= seq![]);
    assert(vistas_copias(copias@) =~= seq![]);
    while i < v.len()
        invariant
            i <= v.len(),
            0 < v.len() <= MAXIMO_ROLES,
            vistas_str(v@) == crate::notas::unicos(vistas_str(ids@)),
            resueltos(vistas_str(v@).take(i as int), propios@) == Ok::<
                Seq<(Seq<char>, Seq<char>, Seq<char>, Seq<char>)>,
                Seq<char>,
            >(vistas_copias(copias@)),
        decreases v.len() - i,
    {
        assert(vistas_str(v@).take(i + 1).drop_last() =~= vistas_str(v@).take(i as int));
        assert(vistas_str(v@).take(i + 1).last() == v@[i as int]@);
        match resolver(&v[i], propios) {
            Some(c) => {
                let ghost antes = copias@;
                copias.push(c);
                assert(vistas_copias(copias@) =~= vistas_copias(antes).push(vista_copia(c)));
            },
            None => {
                let mut m = String::from_str("el rol ");
                anadir_str(&mut m, v[i].as_str());
                anadir_str(&mut m, " no existe");
                proof {
                    lema_resueltos_error(vistas_str(v@), propios@, i + 1);
                }
                return Err(Rechazo { estado: 400, mensaje: m });
            },
        }
        i = i + 1;
    }
    assert(vistas_str(v@).take(v@.len() as int) =~= vistas_str(v@));
    Ok(copias)
}

/// Un error en los `k` primeros ids es el error de todos.
proof fn lema_resueltos_error(ids: Seq<Seq<char>>, propios: Seq<RolCopia>, k: int)
    requires
        0 <= k <= ids.len(),
        resueltos(ids.take(k), propios) is Err,
    ensures
        resueltos(ids, propios) == resueltos(ids.take(k), propios),
    decreases ids.len(),
{
    if ids.len() > k {
        assert(ids.drop_last().take(k) =~= ids.take(k));
        lema_resueltos_error(ids.drop_last(), propios, k);
    } else {
        assert(ids.take(k) =~= ids);
    }
}

} // verus!

verus! {

// ---------------------------------------------------------------------------
// El título de la síntesis.
// ---------------------------------------------------------------------------

/// El título del primer encabezado: sin blancos ni asteriscos en los bordes,
/// sin comillas ni punto final y de 80 caracteres como mucho.
pub open spec fn limpiar_titulo_spec(t: Seq<char>) -> Seq<char> {
    primeros(recortar_adornos_spec(sin_bordes(recortar(t), Clase::Asterisco)), 80)
}

/// El título del primer encabezado, limpio.
pub fn limpiar_titulo(t: &str) -> (r: String)
    ensures
        r@ == limpiar_titulo_spec(t@),
{
    let v = caracteres(t);
    let (a, b) = bordes(&v, 0, v.len(), Clase::Blanco);
    assert(v@.subrange(0, v@.len() as int) == v@);
    let (c, d) = bordes(&v, a, b, Clase::Asterisco);
    let s = texto_de(&v, c, d);
    let limpio = crate::llm::recortar_adornos(s.as_str());
    primeros_de(limpio.as_str(), 80)
}

/// La primera línea con contenido, o `-1`.
pub open spec fn primera_llena(ls: Seq<Seq<char>>) -> int
    decreases ls.len(),
{
    if ls.len() == 0 {
        -1
    } else {
        let r = primera_llena(ls.drop_last());
        if r >= 0 {
            r
        } else if recortar(ls.last()).len() > 0 {
            ls.len() - 1
        } else {
            -1
        }
    }
}

/// Separa el título (primer `# `, en la primera línea con contenido) del
/// resto de la síntesis. Si el modelo no puso título, se usa uno genérico y
/// la síntesis queda entera, sin blancos en los bordes.
pub open spec fn titulo_de_spec(s: Seq<char>) -> (Seq<char>, Seq<char>) {
    let ls = lineas(s);
    let p = if primera_llena(ls) >= 0 {
        primera_llena(ls)
    } else {
        0
    };
    let l = if p < ls.len() {
        recortar(ls[p])
    } else {
        seq![]
    };
    if p < ls.len() && l.len() >= 2 && l[0] == '#' && l[1] == ' ' && limpiar_titulo_spec(
        l.skip(2),
    ).len() > 0 {
        (limpiar_titulo_spec(l.skip(2)), recortar(unir(ls.skip(p + 1), seq!['\n'])))
    } else {
        ("Informe"@, recortar(s))
    }
}

/// Separa el título del resto de la síntesis.
pub fn titulo_de(sintesis: &str) -> (r: (String, String))
    ensures
        (r.0@, r.1@) == titulo_de_spec(sintesis@),
{
    let v = caracteres(sintesis);
    let ls = lineas_de(&v);
    let mut p: usize = 0;
    let mut hallada = false;
    while p < ls.len() && !hallada
        invariant
            p <= ls.len(),
            vistas(ls@) == lineas(v@),
            !hallada ==> primera_llena(vistas(ls@).take(p as int)) == -1,
            hallada ==> p < ls.len() && primera_llena(vistas(ls@)) == p,
        decreases (ls.len() - p) * 2 + if hallada { 0int } else { 1int },
    {
        assert(vistas(ls@).take(p + 1).drop_last() =~= vistas(ls@).take(p as int));
        assert(vistas(ls@).take(p + 1).last() == ls@[p as int]@);
        let t = recortado(texto(&ls[p]).as_str());
        if t.as_str().unicode_len() > 0 {
            hallada = true;
            proof {
                lema_primera_llena(vistas(ls@), p as int);
            }
        } else {
            p = p + 1;
        }
    }
    if !hallada {
        assert(vistas(ls@).take(ls@.len() as int) =~= vistas(ls@));
        p = 0;
    }
    let ghost l = if p < ls.len() {
        recortar(vistas(ls@)[p as int])
    } else {
        seq![]
    };
    if p < ls.len() {
        assert(vistas(ls@)[p as int] == ls@[p as int]@);
        let lt = recortado(texto(&ls[p]).as_str());
        let w = caracteres(lt.as_str());
        if w.len() >= 2 && w[0] == '#' && w[1] == ' ' {
            let resto = texto_de(&w, 2, w.len());
            assert(w@.subrange(2, w@.len() as int) =~= l.skip(2));
            let titulo = limpiar_titulo(resto.as_str());
            if titulo.as_str().unicode_len() > 0 {
                let mut cola: Vec<Vec<char>> = Vec::new();
                let mut k = p + 1;
                while k < ls.len()
                    invariant
                        p + 1 <= k <= ls.len(),
                        vistas(cola@) == vistas(ls@).subrange(p + 1, k as int),
                    decreases ls.len() - k,
                {
                    let c = crate::texto::copia(&ls[k]);
                    let ghost antes = cola@;
                    cola.push(c);
                    assert(vistas(cola@) =~= vistas(antes).push(c@));
                    assert(vistas(ls@)[k as int] == ls@[k as int]@);
                    assert(vistas(ls@).subrange(p + 1, k + 1) =~= vistas(ls@).subrange(
                        p + 1,
                        k as int,
                    ).push(vistas(ls@)[k as int]));
                    k = k + 1;
                }
                assert(vistas(ls@).subrange(p + 1, ls@.len() as int) =~= vistas(ls@).skip(p + 1));
                proof {
                    reveal_strlit("\n");
                }
                assert("\n"@ =~= seq!['\n']);
                let unido = unir_de(&cola, "\n");
                let cuerpo = recortado(unido.as_str());
                return (titulo, cuerpo);
            }
        }
    }
    (String::from_str("Informe"), recortado(sintesis))
}

proof fn lema_primera_llena(ls: Seq<Seq<char>>, p: int)
    requires
        0 <= p < ls.len(),
        primera_llena(ls.take(p)) == -1,
        recortar(ls[p]).len() > 0,
    ensures
        primera_llena(ls) == p,
    decreases ls.len(),
{
    if ls.len() > p + 1 {
        assert(ls.drop_last().take(p) =~= ls.take(p));
        lema_primera_llena(ls.drop_last(), p);
    } else {
        assert(ls.drop_last() =~= ls.take(p));
    }
}

} // verus!

verus! {

// ---------------------------------------------------------------------------
// El informe entero.
// ---------------------------------------------------------------------------

/// Un rol dentro de un informe que se está generando, con su estado y lo
/// que escribió o el motivo de su fallo.
pub struct RolTrabajo {
    pub id: String,
    pub nombre: String,
    pub icono: String,
    pub enfoque: String,
    pub estado: String,
    pub texto: String,
    pub error: String,
}

/// La ficha del informe: modelo pedido y servido, llamadas, coste ya escrito
/// en dólares, cuándo se pidió y la instrucción.
pub struct Ficha<'a> {
    pub modelo: Option<&'a str>,
    pub servido: Option<&'a str>,
    pub llamadas: usize,
    pub coste: Option<&'a str>,
    pub pedido_en: &'a str,
    pub instruccion: &'a str,
}

/// Lo de un rol en el informe: su texto si lo hizo, o que no respondió y por qué.
pub open spec fn bloque_rol(r: RolTrabajo) -> Seq<char> {
    "### "@ + r.icono@ + " "@ + r.nombre@ + "\n\n"@ + (if r.estado@ == "hecho"@ {
        recortar(r.texto@)
    } else {
        "_Este rol no respondió ("@ + (if r.error@.len() == 0 {
            "sin detalle"@
        } else {
            r.error@
        }) + "); se puede reintentar desde la app._"@
    }) + "\n\n"@
}

pub open spec fn bloques_roles(rs: Seq<RolTrabajo>) -> Seq<char>
    decreases rs.len(),
{
    if rs.len() == 0 {
        seq![]
    } else {
        bloques_roles(rs.drop_last()) + bloque_rol(rs.last())
    }
}

pub open spec fn nombres_roles(rs: Seq<RolTrabajo>) -> Seq<Seq<char>> {
    rs.map_values(|r: RolTrabajo| r.nombre@)
}

/// Cómo se dice en la ficha qué modelo redactó.
pub open spec fn modelo_ficha(m: Option<Seq<char>>, s: Option<Seq<char>>) -> Seq<char> {
    match (m, s) {
        (Some(m), Some(s)) => if m != s {
            "`"@ + m + "` (servido por `"@ + s + "`)"@
        } else {
            "`"@ + m + "`"@
        },
        (Some(m), None) => "`"@ + m + "`"@,
        (None, Some(s)) => "el del servidor (`"@ + s + "`)"@,
        (None, None) => "el del servidor"@,
    }
}

pub open spec fn ficha_spec(f: Ficha, rs: Seq<RolTrabajo>) -> Seq<char> {
    "\n\n## Ficha\n\n"@ + "- **Modelo:** "@ + modelo_ficha(
        crate::llm::opcion_str(f.modelo),
        crate::llm::opcion_str(f.servido),
    ) + "\n"@ + "- **Roles:** "@ + unir(nombres_roles(rs), ", "@) + "\n"@ + "- **Llamadas:** "@
        + decimal(f.llamadas as nat) + " · **Coste:** "@ + (match f.coste {
        Some(c) => c@ + " $"@,
        None => "no disponible"@,
    }) + "\n"@ + "- **Generado:** "@ + crate::notas::fecha_minuto(f.pedido_en@) + " UTC\n"@ + (
    if recortar(f.instruccion@).len() > 0 {
        "- **Instrucción:** "@ + recortar(f.instruccion@) + "\n"@
    } else {
        seq![]
    })
}

/// El informe entero: la síntesis, lo de cada rol tal cual, las notas de
/// origen y la ficha. Lo escribe la aplicación para que la estructura no
/// dependa del modelo.
pub open spec fn componer_spec(
    sintesis: Seq<char>,
    titulo: Seq<char>,
    roles: Seq<RolTrabajo>,
    fuentes: Seq<NotaFuente>,
    ficha: Ficha,
) -> Seq<char> {
    "# "@ + titulo + "\n\n"@ + recortar(sintesis) + "\n\n## Análisis por rol\n\n"@ + bloques_roles(
        roles,
    ) + crate::texto::sin_fin(notas_de_origen_spec(fuentes), Clase::Blanco) + ficha_spec(
        ficha,
        roles,
    )
}


pub open spec fn coste_ficha(c: Option<&str>) -> Seq<char> {
    match c {
        Some(c) => c@ + " $"@,
        None => "no disponible"@,
    }
}

pub open spec fn instruccion_ficha(i: Seq<char>) -> Seq<char> {
    if recortar(i).len() > 0 {
        "- **Instrucción:** "@ + recortar(i) + "\n"@
    } else {
        seq![]
    }
}

proof fn lema_ficha(f: Ficha, rs: Seq<RolTrabajo>)
    ensures
        ficha_spec(f, rs) == "\n\n## Ficha\n\n"@ + "- **Modelo:** "@ + modelo_ficha(
            crate::llm::opcion_str(f.modelo),
            crate::llm::opcion_str(f.servido),
        ) + "\n"@ + "- **Roles:** "@ + unir(nombres_roles(rs), ", "@) + "\n"@
            + "- **Llamadas:** "@ + decimal(f.llamadas as nat) + " · **Coste:** "@ + coste_ficha(
            f.coste,
        ) + "\n"@ + "- **Generado:** "@ + crate::notas::fecha_minuto(f.pedido_en@) + " UTC\n"@
            + instruccion_ficha(f.instruccion@),
{
}

fn anadir_modelo(t: &mut String, m: Option<&str>, s: Option<&str>)
    ensures
        final(t)@ == old(t)@ + modelo_ficha(crate::llm::opcion_str(m), crate::llm::opcion_str(s)),
{
    match (m, s) {
        (Some(m), Some(s)) => {
            if !textos_iguales(m, s) {
                anadir_str(t, "`");
                anadir_str(t, m);
                anadir_str(t, "` (servido por `");
                anadir_str(t, s);
                anadir_str(t, "`)");
            } else {
                anadir_str(t, "`");
                anadir_str(t, m);
                anadir_str(t, "`");
            }
        },
        (Some(m), None) => {
            anadir_str(t, "`");
            anadir_str(t, m);
            anadir_str(t, "`");
        },
        (None, Some(s)) => {
            anadir_str(t, "el del servidor (`");
            anadir_str(t, s);
            anadir_str(t, "`)");
        },
        (None, None) => {
            anadir_str(t, "el del servidor");
        },
    }
    assert(final(t)@ =~= old(t)@ + modelo_ficha(crate::llm::opcion_str(m), crate::llm::opcion_str(s)));
}

fn nombres_de(roles: &Vec<RolTrabajo>) -> (r: String)
    ensures
        r@ == unir(nombres_roles(roles@), ", "@),
{
    let mut nombres: Vec<String> = Vec::new();
    let mut k: usize = 0;
    while k < roles.len()
        invariant
            k <= roles.len(),
            vistas_str(nombres@) == nombres_roles(roles@.take(k as int)),
        decreases roles.len() - k,
    {
        let n = roles[k].nombre.clone();
        let ghost antes = nombres@;
        nombres.push(n);
        assert(vistas_str(nombres@) =~= vistas_str(antes).push(n@));
        assert(nombres_roles(roles@.take(k + 1)) =~= nombres_roles(roles@.take(k as int)).push(
            roles@[k as int].nombre@,
        ));
        k = k + 1;
    }
    assert(roles@.take(roles@.len() as int) =~= roles@);
    unir_strings(&nombres, ", ")
}

fn anadir_coste(t: &mut String, c: Option<&str>)
    ensures
        final(t)@ == old(t)@ + coste_ficha(c),
{
    match c {
        Some(c) => {
            anadir_str(t, c);
            anadir_str(t, " $");
        },
        None => {
            anadir_str(t, "no disponible");
        },
    }
    assert(final(t)@ =~= old(t)@ + coste_ficha(c));
}

fn anadir_instruccion(t: &mut String, i: &str)
    ensures
        final(t)@ == old(t)@ + instruccion_ficha(i@),
{
    let ins = recortado(i);
    if ins.as_str().unicode_len() > 0 {
        anadir_str(t, "- **Instrucción:** ");
        anadir_str(t, ins.as_str());
        anadir_str(t, "\n");
    }
    assert(final(t)@ =~= old(t)@ + instruccion_ficha(i@));
}

fn anadir_ficha(t: &mut String, ficha: &Ficha, roles: &Vec<RolTrabajo>)
    ensures
        final(t)@ == old(t)@ + ficha_spec(*ficha, roles@),
{
    let ghost t0 = t@;
    anadir_str(t, "\n\n## Ficha\n\n");
    anadir_str(t, "- **Modelo:** ");
    anadir_modelo(t, ficha.modelo, ficha.servido);
    anadir_str(t, "\n");
    anadir_str(t, "- **Roles:** ");
    let j = nombres_de(roles);
    anadir_str(t, j.as_str());
    anadir_str(t, "\n");
    anadir_str(t, "- **Llamadas:** ");
    anadir_decimal(t, ficha.llamadas as u64);
    anadir_str(t, " · **Coste:** ");
    anadir_coste(t, ficha.coste);
    anadir_str(t, "\n");
    anadir_str(t, "- **Generado:** ");
    let f = crate::notas::fecha_al_minuto(ficha.pedido_en);
    anadir_str(t, f.as_str());
    anadir_str(t, " UTC\n");
    anadir_instruccion(t, ficha.instruccion);
    proof {
        lema_ficha(*ficha, roles@);
    }
    assert(t@ =~= t0 + ficha_spec(*ficha, roles@));
}

fn anadir_bloque(t: &mut String, r: &RolTrabajo)
    ensures
        final(t)@ == old(t)@ + bloque_rol(*r),
{
    let ghost t0 = t@;
    anadir_str(t, "### ");
    anadir_str(t, r.icono.as_str());
    anadir_str(t, " ");
    anadir_str(t, r.nombre.as_str());
    anadir_str(t, "\n\n");
    let ghost t1 = t@;
    if textos_iguales(r.estado.as_str(), "hecho") {
        let x = recortado(r.texto.as_str());
        anadir_str(t, x.as_str());
    } else {
        anadir_str(t, "_Este rol no respondió (");
        if r.error.as_str().unicode_len() == 0 {
            anadir_str(t, "sin detalle");
        } else {
            anadir_str(t, r.error.as_str());
        }
        anadir_str(t, "); se puede reintentar desde la app._");
    }
    anadir_str(t, "\n\n");
    assert(t@ =~= t0 + bloque_rol(*r));
}

/// El informe entero.
pub fn componer(
    sintesis: &str,
    titulo: &str,
    roles: &Vec<RolTrabajo>,
    fuentes: &[NotaFuente],
    ficha: &Ficha,
) -> (r: String)
    requires
        fuentes@.len() < u64::MAX,
    ensures
        r@ == componer_spec(sintesis@, titulo@, roles@, fuentes@, *ficha),
{
    let mut t = String::new();
    anadir_str(&mut t, "# ");
    anadir_str(&mut t, titulo);
    anadir_str(&mut t, "\n\n");
    let s = recortado(sintesis);
    anadir_str(&mut t, s.as_str());
    anadir_str(&mut t, "\n\n## Análisis por rol\n\n");
    let ghost base = t@;
    let mut i: usize = 0;
    while i < roles.len()
        invariant
            i <= roles.len(),
            t@ == base + bloques_roles(roles@.take(i as int)),
        decreases roles.len() - i,
    {
        let r = &roles[i];
        assert(roles@.take(i + 1).drop_last() =~= roles@.take(i as int));
        assert(roles@.take(i + 1).last() == *r);
        anadir_bloque(&mut t, r);
        assert(t@ =~= base + bloques_roles(roles@.take(i + 1)));
        i = i + 1;
    }
    assert(roles@.take(roles@.len() as int) =~= roles@);
    let origen = notas_de_origen(fuentes);
    let ov = caracteres(origen.as_str());
    let fin = crate::texto::saltar_fin(&ov, 0, ov.len(), Clase::Blanco);
    assert(ov@.subrange(0, ov@.len() as int) == ov@);
    let o = texto_de(&ov, 0, fin);
    anadir_str(&mut t, o.as_str());
    anadir_ficha(&mut t, ficha, roles);
    t
}

} // verus!

verus! {

// ---------------------------------------------------------------------------
// Modelos del catálogo.
// ---------------------------------------------------------------------------

/// Los recomendados que trae la aplicación: id y por qué.
pub open spec fn recomendados_defecto() -> Seq<(Seq<char>, Seq<char>)> {
    seq![
        ("google/gemini-2.5-pro"@, "Buen equilibrio para informes largos"@),
        ("openai/gpt-5"@, "Muy bueno analizando; algo más lento"@),
        ("google/gemini-2.5-flash"@, "Barato y decente para probar roles"@),
        ("deepseek/deepseek-chat-v3.1"@, "Muy barato"@),
    ]
}

/// Los ids de una lista separada por comas, sin blancos y sin vacíos.
pub open spec fn ids_lista(ts: Seq<Seq<char>>) -> Seq<Seq<char>>
    decreases ts.len(),
{
    if ts.len() == 0 {
        seq![]
    } else {
        let r = ids_lista(ts.drop_last());
        if recortar(ts.last()).len() > 0 {
            r.push(recortar(ts.last()))
        } else {
            r
        }
    }
}

/// Los recomendados en vigor: los de la variable (ids separados por comas,
/// cada uno «Recomendado») si trae algo; si no, los de la aplicación.
pub open spec fn recomendados_spec(v: Option<Seq<char>>) -> Seq<(Seq<char>, Seq<char>)> {
    match v {
        Some(x) => if recortar(x).len() > 0 {
            ids_lista(crate::texto::trozos(x, ',')).map_values(
                |s: Seq<char>| (s, "Recomendado"@),
            )
        } else {
            recomendados_defecto()
        },
        None => recomendados_defecto(),
    }
}

pub open spec fn vistas_pares(v: Seq<(String, String)>) -> Seq<(Seq<char>, Seq<char>)> {
    v.map_values(|p: (String, String)| (p.0@, p.1@))
}

/// Los recomendados en vigor a partir de `LLM_RECOMENDADOS`.
pub fn recomendados_de(v: Option<&str>) -> (r: Vec<(String, String)>)
    requires
        v matches Some(x) ==> x@.len() < i64::MAX,
    ensures
        vistas_pares(r@) == recomendados_spec(crate::llm::opcion_str(v)),
{
    let mut r: Vec<(String, String)> = Vec::new();
    if let Some(x) = v {
        let t = recortado(x);
        if t.as_str().unicode_len() > 0 {
            let w = caracteres(x);
            let ts = crate::texto::trozos_de(&w, 0, w.len(), ',');
            assert(w@.subrange(0, w@.len() as int) == w@);
            let mut i: usize = 0;
            while i < ts.len()
                invariant
                    i <= ts.len(),
                    vistas(ts@) == crate::texto::trozos(x@, ','),
                    vistas_pares(r@) == ids_lista(vistas(ts@).take(i as int)).map_values(
                        |s: Seq<char>| (s, "Recomendado"@),
                    ),
                decreases ts.len() - i,
            {
                assert(vistas(ts@).take(i + 1).drop_last() =~= vistas(ts@).take(i as int));
                assert(vistas(ts@).take(i + 1).last() == ts@[i as int]@);
                let (a, b) = bordes(&ts[i], 0, ts[i].len(), Clase::Blanco);
                assert(ts@[i as int]@.subrange(0, ts@[i as int]@.len() as int) == ts@[i as int]@);
                if a < b {
                    let id = texto_de(&ts[i], a, b);
                    let ghost antes = r@;
                    let ghost vid = id@;
                    r.push((id, String::from_str("Recomendado")));
                    assert(vistas_pares(r@) =~= vistas_pares(antes).push((vid, "Recomendado"@)));
                }
                i = i + 1;
            }
            assert(vistas(ts@).take(ts@.len() as int) =~= vistas(ts@));
            return r;
        }
    }
    r.push((String::from_str("google/gemini-2.5-pro"), String::from_str("Buen equilibrio para informes largos")));
    r.push((String::from_str("openai/gpt-5"), String::from_str("Muy bueno analizando; algo más lento")));
    r.push((String::from_str("google/gemini-2.5-flash"), String::from_str("Barato y decente para probar roles")));
    r.push((String::from_str("deepseek/deepseek-chat-v3.1"), String::from_str("Muy barato")));
    assert(vistas_pares(r@) =~= recomendados_defecto());
    r
}

/// Lo que la lógica lee de un modelo del catálogo (el precio se queda fuera).
pub struct ModeloEntrada {
    pub id: String,
    pub nombre: String,
    pub json: bool,
    pub modalidades: Vec<String>,
}

/// El modelo que pide la app: vacío o ausente es «el del servidor».
pub fn modelo_pedido(m: Option<&str>) -> (r: Option<String>)
    ensures
        crate::llm::opcion_string(r) == crate::llm::opcion_limpia(crate::llm::opcion_str(m)),
{
    match m {
        Some(x) => {
            let t = recortado(x);
            if t.as_str().unicode_len() > 0 {
                Some(t)
            } else {
                None
            }
        },
        None => None,
    }
}

/// El primer modelo del catálogo con ese id, o `-1`.
pub open spec fn indice_modelo(c: Seq<ModeloEntrada>, id: Seq<char>) -> int
    decreases c.len(),
{
    if c.len() == 0 {
        -1
    } else {
        let r = indice_modelo(c.drop_last(), id);
        if r >= 0 {
            r
        } else if c.last().id@ == id {
            c.len() - 1
        } else {
            -1
        }
    }
}

/// Comprueba el modelo que pide la app: uno que no está en el catálogo es un
/// 400; los encargos piden salida estructurada, así que ahí tiene que darla.
pub open spec fn comprobar_modelo_spec(id: Seq<char>, c: Seq<ModeloEntrada>, para_encargo: bool) -> Result<
    Seq<char>,
    Seq<char>,
> {
    let i = indice_modelo(c, id);
    if i < 0 {
        Err("el modelo "@ + id + " no está en el catálogo"@)
    } else if para_encargo && !c[i].json {
        Err(id + " no da salida estructurada y el encargo la necesita: elige otro"@)
    } else {
        Ok(id)
    }
}

pub open spec fn vista_texto(r: Result<String, Rechazo>) -> Result<Seq<char>, Seq<char>> {
    match r {
        Ok(x) => Ok(x@),
        Err(e) => Err(e.mensaje@),
    }
}

proof fn lema_indice_modelo(c: Seq<ModeloEntrada>, id: Seq<char>, j: int)
    requires
        0 <= j < c.len(),
        indice_modelo(c.take(j), id) == -1,
        c[j].id@ == id,
    ensures
        indice_modelo(c, id) == j,
    decreases c.len(),
{
    if c.len() > j + 1 {
        assert(c.drop_last().take(j) =~= c.take(j));
        lema_indice_modelo(c.drop_last(), id, j);
    } else {
        assert(c.drop_last() =~= c.take(j));
    }
}

/// Comprueba el modelo que pide la app contra el catálogo.
pub fn comprobar_modelo(id: &str, catalogo: &Vec<ModeloEntrada>, para_encargo: bool) -> (r: Result<
    String,
    Rechazo,
>)
    ensures
        vista_texto(r) == comprobar_modelo_spec(id@, catalogo@, para_encargo),
        r matches Err(e) ==> e.estado == 400,
{
    let mut j: usize = 0;
    while j < catalogo.len()
        invariant
            j <= catalogo.len(),
            indice_modelo(catalogo@.take(j as int), id@) == -1,
        decreases catalogo.len() - j,
    {
        assert(catalogo@.take(j + 1).drop_last() =~= catalogo@.take(j as int));
        if textos_iguales(catalogo[j].id.as_str(), id) {
            proof {
                lema_indice_modelo(catalogo@, id@, j as int);
            }
            if para_encargo && !catalogo[j].json {
                let mut m = String::from_str(id);
                anadir_str(&mut m, " no da salida estructurada y el encargo la necesita: elige otro");
                return Err(Rechazo { estado: 400, mensaje: m });
            }
            return Ok(String::from_str(id));
        }
        j = j + 1;
    }
    assert(catalogo@.take(catalogo@.len() as int) =~= catalogo@);
    let mut m = String::from_str("el modelo ");
    anadir_str(&mut m, id);
    anadir_str(&mut m, " no está en el catálogo");
    Err(Rechazo { estado: 400, mensaje: m })
}

// ---------------------------------------------------------------------------
// Reintentar y generar un informe.
// ---------------------------------------------------------------------------

/// Cuándo se puede reintentar un documento: solo un informe, que no se esté
/// generando ya y que tenga algo que reintentar.
pub open spec fn reintentar_spec(tipo: Seq<char>, estado: Seq<char>, estados_roles: Seq<Seq<char>>) -> Result<
    (),
    (u16, Seq<char>),
> {
    if tipo != "informe"@ {
        Err((400u16, "solo se reintenta un informe; un encargo se regenera"@))
    } else if estado == "pendiente"@ {
        Err((409u16, "ese informe ya se está generando"@))
    } else if (forall|i: int| 0 <= i < estados_roles.len() ==> estados_roles[i] == "hecho"@)
        && estado == "listo"@ {
        Err((400u16, "no hay nada que reintentar"@))
    } else {
        Ok(())
    }
}

pub open spec fn vista_nada(r: Result<(), Rechazo>) -> Result<(), (u16, Seq<char>)> {
    match r {
        Ok(()) => Ok(()),
        Err(e) => Err((e.estado, e.mensaje@)),
    }
}

/// Cuándo se puede reintentar un documento.
pub fn puede_reintentar(tipo: &str, estado: &str, estados_roles: &Vec<String>) -> (r: Result<
    (),
    Rechazo,
>)
    ensures
        vista_nada(r) == reintentar_spec(tipo@, estado@, vistas_str(estados_roles@)),
{
    if !textos_iguales(tipo, "informe") {
        return Err(rechazar(400, "solo se reintenta un informe; un encargo se regenera"));
    }
    if textos_iguales(estado, "pendiente") {
        return Err(rechazar(409, "ese informe ya se está generando"));
    }
    let ghost vs = vistas_str(estados_roles@);
    let mut fallidos: usize = 0;
    let mut i: usize = 0;
    while i < estados_roles.len()
        invariant
            i <= estados_roles.len(),
            vs == vistas_str(estados_roles@),
            fallidos <= i,
            (fallidos == 0) <==> forall|j: int| 0 <= j < i ==> vs[j] == "hecho"@,
        decreases estados_roles.len() - i,
    {
        assert(vs[i as int] == estados_roles@[i as int]@);
        if !textos_iguales(estados_roles[i].as_str(), "hecho") {
            fallidos = fallidos + 1;
        }
        i = i + 1;
    }
    if fallidos == 0 && textos_iguales(estado, "listo") {
        return Err(rechazar(400, "no hay nada que reintentar"));
    }
    Ok(())
}

/// Los roles que faltan por hacer: los que no están `hecho`, en orden.
pub open spec fn por_hacer(estados: Seq<Seq<char>>) -> Seq<int>
    decreases estados.len(),
{
    if estados.len() == 0 {
        seq![]
    } else if estados.last() != "hecho"@ {
        por_hacer(estados.drop_last()).push(estados.len() - 1)
    } else {
        por_hacer(estados.drop_last())
    }
}

/// Los índices de los roles que faltan por hacer.
pub fn roles_por_hacer(roles: &Vec<RolTrabajo>) -> (r: Vec<usize>)
    ensures
        r@.map_values(|x: usize| x as int) == por_hacer(roles@.map_values(|x: RolTrabajo| x.estado@)),
{
    let ghost estados = roles@.map_values(|x: RolTrabajo| x.estado@);
    let mut r: Vec<usize> = Vec::new();
    let mut i: usize = 0;
    while i < roles.len()
        invariant
            i <= roles.len(),
            estados == roles@.map_values(|x: RolTrabajo| x.estado@),
            r@.map_values(|x: usize| x as int) == por_hacer(estados.take(i as int)),
        decreases roles.len() - i,
    {
        assert(estados.take(i + 1).drop_last() =~= estados.take(i as int));
        assert(estados.take(i + 1).last() == roles@[i as int].estado@);
        if !textos_iguales(roles[i].estado.as_str(), "hecho") {
            let ghost antes = r@;
            r.push(i);
            assert(r@.map_values(|x: usize| x as int) =~= antes.map_values(|x: usize| x as int).push(
                i as int,
            ));
        }
        i = i + 1;
    }
    assert(estados.take(roles@.len() as int) =~= estados);
    r
}

/// El primer error anotado entre los roles, o «sin detalle».
pub open spec fn motivo_spec(errores: Seq<Seq<char>>) -> Seq<char>
    decreases errores.len(),
{
    if errores.len() == 0 {
        "sin detalle"@
    } else {
        let r = motivo_spec(errores.drop_last());
        if exists|j: int| 0 <= j < errores.len() - 1 && errores[j].len() > 0 {
            r
        } else if errores.last().len() > 0 {
            errores.last()
        } else {
            "sin detalle"@
        }
    }
}

/// Por qué falla un informe en el que no respondió ningún rol.
pub fn sin_respuesta(roles: &Vec<RolTrabajo>) -> (r: String)
    ensures
        r@ == "no respondió ningún rol ("@ + motivo_spec(roles@.map_values(|x: RolTrabajo| x.error@))
            + ")"@,
{
    let ghost errores = roles@.map_values(|x: RolTrabajo| x.error@);
    let mut i: usize = 0;
    let mut hallado: Option<usize> = None;
    while i < roles.len() && hallado.is_none()
        invariant
            i <= roles.len(),
            errores == roles@.map_values(|x: RolTrabajo| x.error@),
            hallado is None ==> forall|j: int| 0 <= j < i ==> errores[j].len() == 0,
            hallado matches Some(k) ==> k < roles.len() && errores[k as int].len() > 0 && forall|
                j: int,
            | 0 <= j < k ==> errores[j].len() == 0,
        decreases roles.len() - i + if hallado is None { 1int } else { 0int },
    {
        if roles[i].error.as_str().unicode_len() > 0 {
            hallado = Some(i);
        } else {
            i = i + 1;
        }
    }
    let mut m = String::from_str("no respondió ningún rol (");
    match hallado {
        Some(k) => {
            proof {
                lema_motivo(errores, k as int, errores.len() as int);
                assert(errores.take(errores.len() as int) =~= errores);
            }
            assert(errores[k as int] == roles@[k as int].error@);
            anadir_str(&mut m, roles[k].error.as_str());
        },
        None => {
            proof {
                lema_motivo_vacio(errores);
            }
            anadir_str(&mut m, "sin detalle");
        },
    }
    anadir_str(&mut m, ")");
    m
}

proof fn lema_motivo(e: Seq<Seq<char>>, k: int, n: int)
    requires
        0 <= k < n <= e.len(),
        e[k].len() > 0,
        forall|j: int| 0 <= j < k ==> e[j].len() == 0,
    ensures
        motivo_spec(e.take(n)) == e[k],
    decreases n,
{
    assert(e.take(n).drop_last() =~= e.take(n - 1));
    if n > k + 1 {
        lema_motivo(e, k, n - 1);
        assert(e.take(n)[k] == e[k]);
    } else {
        assert forall|j: int| 0 <= j < e.take(n).len() - 1 implies e.take(n)[j].len() == 0 by {
            assert(e.take(n)[j] == e[j]);
        }
    }
    if n == e.len() {
        assert(e.take(n) =~= e);
    }
}

proof fn lema_motivo_vacio(e: Seq<Seq<char>>)
    requires
        forall|j: int| 0 <= j < e.len() ==> e[j].len() == 0,
    ensures
        motivo_spec(e) == "sin detalle"@,
    decreases e.len(),
{
    if e.len() > 0 {
        lema_motivo_vacio(e.drop_last());
    }
}

} // verus!

verus! {

/// Un modelo tal y como se ofrece en el selector: cuál del catálogo es, el
/// nombre que se enseña y por qué se recomienda, si se recomienda.
pub struct ModeloElegido {
    pub indice: usize,
    pub nombre: String,
    pub recomendado: Option<String>,
}

/// Si el modelo escribe texto: sin modalidades declaradas, o con `text` entre ellas.
pub open spec fn de_texto(m: ModeloEntrada) -> bool {
    m.modalidades@.len() == 0 || vistas_str(m.modalidades@).contains("text"@)
}

/// El nombre que se enseña: el suyo o, si no trae, el id.
pub open spec fn nombre_modelo(m: ModeloEntrada) -> Seq<char> {
    if m.nombre@.len() == 0 {
        m.id@
    } else {
        m.nombre@
    }
}

/// Por qué se recomienda: el motivo del primer recomendado con su id.
pub open spec fn motivo_recomendado(rec: Seq<(Seq<char>, Seq<char>)>, id: Seq<char>) -> Option<Seq<char>>
    decreases rec.len(),
{
    if rec.len() == 0 {
        None
    } else {
        let r = motivo_recomendado(rec.drop_last(), id);
        if r is Some {
            r
        } else if rec.last().0 == id {
            Some(rec.last().1)
        } else {
            None
        }
    }
}

/// Los índices de los modelos de texto, en su orden.
pub open spec fn de_texto_indices(c: Seq<ModeloEntrada>) -> Seq<int>
    decreases c.len(),
{
    if c.len() == 0 {
        seq![]
    } else {
        let r = de_texto_indices(c.drop_last());
        if de_texto(c.last()) {
            r.push(c.len() - 1)
        } else {
            r
        }
    }
}

/// El selector: los modelos de texto ordenados por su nombre en minúsculas,
/// de forma estable, cada uno con su nombre y su recomendación.
pub open spec fn selector_spec(
    c: Seq<ModeloEntrada>,
    rec: Seq<(Seq<char>, Seq<char>)>,
    r: Seq<ModeloElegido>,
) -> bool {
    let f = de_texto_indices(c);
    let k = f.map_values(|i: int| (0int, crate::texto::minusculas(nombre_modelo(c[i]))));
    exists|perm: Seq<int>|
        crate::orden::ordenados(k, false, perm, f.len() as int) && r.len() == perm.len() && forall|
            j: int,
        |
            0 <= j < r.len() ==> {
                &&& #[trigger] r[j].indice as int == f[perm[j]]
                &&& r[j].nombre@ == nombre_modelo(c[f[perm[j]]])
                &&& crate::llm::opcion_string(r[j].recomendado) == motivo_recomendado(
                    rec,
                    c[f[perm[j]]].id@,
                )
            }
}

fn es_de_texto(m: &ModeloEntrada) -> (r: bool)
    ensures
        r == de_texto(*m),
{
    if m.modalidades.len() == 0 {
        return true;
    }
    let mut i: usize = 0;
    while i < m.modalidades.len()
        invariant
            i <= m.modalidades.len(),
            forall|j: int| 0 <= j < i ==> vistas_str(m.modalidades@)[j] != "text"@,
        decreases m.modalidades.len() - i,
    {
        assert(vistas_str(m.modalidades@)[i as int] == m.modalidades@[i as int]@);
        if textos_iguales(m.modalidades[i].as_str(), "text") {
            return true;
        }
        i = i + 1;
    }
    false
}

fn motivo_de(rec: &Vec<(String, String)>, id: &str) -> (r: Option<String>)
    ensures
        crate::llm::opcion_string(r) == motivo_recomendado(vistas_pares(rec@), id@),
{
    let ghost rv = vistas_pares(rec@);
    let mut i: usize = 0;
    while i < rec.len()
        invariant
            i <= rec.len(),
            rv == vistas_pares(rec@),
            motivo_recomendado(rv.take(i as int), id@) is None,
        decreases rec.len() - i,
    {
        assert(rv.take(i + 1).drop_last() =~= rv.take(i as int));
        assert(rv.take(i + 1).last() == (rec@[i as int].0@, rec@[i as int].1@));
        if textos_iguales(rec[i].0.as_str(), id) {
            proof {
                lema_motivo_recomendado(rv, id@, i as int, rv.len() as int);
                assert(rv.take(rv.len() as int) =~= rv);
            }
            return Some(rec[i].1.clone());
        }
        i = i + 1;
    }
    assert(rv.take(rv.len() as int) =~= rv);
    None
}

proof fn lema_motivo_recomendado(rv: Seq<(Seq<char>, Seq<char>)>, id: Seq<char>, i: int, n: int)
    requires
        0 <= i < n <= rv.len(),
        motivo_recomendado(rv.take(i), id) is None,
        rv[i].0 == id,
    ensures
        motivo_recomendado(rv.take(n), id) == Some(rv[i].1),
    decreases n,
{
    assert(rv.take(n).drop_last() =~= rv.take(n - 1));
    if n > i + 1 {
        lema_motivo_recomendado(rv, id, i, n - 1);
    }
}

/// El selector de modelos: los de texto, ordenados por nombre en minúsculas.
#[verifier::spinoff_prover]
pub fn selector_modelos(catalogo: &Vec<ModeloEntrada>, rec: &Vec<(String, String)>) -> (r: Vec<
    ModeloElegido,
>)
    ensures
        selector_spec(catalogo@, vistas_pares(rec@), r@),
{
    let mut f: Vec<usize> = Vec::new();
    let mut i: usize = 0;
    while i < catalogo.len()
        invariant
            i <= catalogo.len(),
            crate::orden::enteros(f@) == de_texto_indices(catalogo@.take(i as int)),
            forall|j: int| 0 <= j < f.len() ==> (f@[j] as int) < i,
        decreases catalogo.len() - i,
    {
        assert(catalogo@.take(i + 1).drop_last() =~= catalogo@.take(i as int));
        assert(catalogo@.take(i + 1).last() == catalogo@[i as int]);
        if es_de_texto(&catalogo[i]) {
            let ghost antes = f@;
            f.push(i);
            assert(crate::orden::enteros(f@) =~= crate::orden::enteros(antes).push(i as int));
        }
        i = i + 1;
    }
    assert(catalogo@.take(catalogo@.len() as int) =~= catalogo@);
    let ghost fv = crate::orden::enteros(f@);
    let mut claves: Vec<(i64, Vec<char>)> = Vec::new();
    let mut nombres: Vec<String> = Vec::new();
    let mut k: usize = 0;
    while k < f.len()
        invariant
            k <= f.len(),
            fv == crate::orden::enteros(f@),
            forall|j: int| 0 <= j < f.len() ==> (f@[j] as int) < catalogo.len(),
            crate::orden::vista_claves(claves@) == fv.take(k as int).map_values(
                |x: int| (0int, crate::texto::minusculas(nombre_modelo(catalogo@[x]))),
            ),
            nombres@.len() == k,
            forall|j: int| 0 <= j < k ==> #[trigger] nombres@[j]@ == nombre_modelo(catalogo@[fv[j]]),
        decreases f.len() - k,
    {
        let m = &catalogo[f[k]];
        let nombre = if m.nombre.as_str().unicode_len() == 0 {
            m.id.clone()
        } else {
            m.nombre.clone()
        };
        let bajas = crate::texto::a_minusculas(nombre.as_str());
        let c: (i64, Vec<char>) = (0, caracteres(bajas.as_str()));
        let ghost antes = claves@;
        claves.push(c);
        assert(crate::orden::vista_claves(claves@) =~= crate::orden::vista_claves(antes).push(
            (0int, c.1@),
        ));
        assert(fv.take(k + 1) =~= fv.take(k as int).push(fv[k as int]));
        nombres.push(nombre);
        k = k + 1;
    }
    assert(fv.take(f@.len() as int) =~= fv);
    let perm = crate::orden::ordenar(&claves, false);
    let mut r: Vec<ModeloElegido> = Vec::new();
    let mut m: usize = 0;
    while m < perm.len()
        invariant
            m <= perm.len(),
            crate::orden::ordenados(
                crate::orden::vista_claves(claves@),
                false,
                crate::orden::enteros(perm@),
                claves@.len() as int,
            ),
            claves.len() == f.len(),
            nombres.len() == f.len(),
            fv == crate::orden::enteros(f@),
            forall|j: int| 0 <= j < f.len() ==> (f@[j] as int) < catalogo.len(),
            forall|j: int| 0 <= j < f.len() ==> #[trigger] nombres@[j]@ == nombre_modelo(catalogo@[fv[j]]),
            r@.len() == m,
            forall|j: int|
                0 <= j < m ==> {
                    &&& #[trigger] r@[j].indice == f@[perm@[j] as int]
                    &&& r@[j].nombre@ == nombre_modelo(catalogo@[fv[perm@[j] as int]])
                    &&& crate::llm::opcion_string(r@[j].recomendado) == motivo_recomendado(
                        vistas_pares(rec@),
                        catalogo@[fv[perm@[j] as int]].id@,
                    )
                },
        decreases perm.len() - m,
    {
        assert(crate::orden::enteros(perm@)[m as int] == perm@[m as int] as int);
        let q = perm[m];
        let indice = f[q];
        let recomendado = motivo_de(rec, catalogo[indice].id.as_str());
        r.push(ModeloElegido { indice, nombre: nombres[q].clone(), recomendado });
        m = m + 1;
    }
    proof {
        let ks = fv.map_values(
            |x: int| (0int, crate::texto::minusculas(nombre_modelo(catalogo@[x]))),
        );
        assert(ks =~= crate::orden::vista_claves(claves@));
        let pv = crate::orden::enteros(perm@);
        assert forall|j: int| 0 <= j < r@.len() implies {
            &&& #[trigger] r@[j].indice as int == fv[pv[j]]
            &&& r@[j].nombre@ == nombre_modelo(catalogo@[fv[pv[j]]])
            &&& crate::llm::opcion_string(r@[j].recomendado) == motivo_recomendado(
                vistas_pares(rec@),
                catalogo@[fv[pv[j]]].id@,
            )
        } by {
            assert(pv[j] == perm@[j] as int);
        }
    }
    r
}

} // verus!

verus! {

// ---------------------------------------------------------------------------
// Cuentas de una generación.
// ---------------------------------------------------------------------------

/// `n` con su signo, como lo escribe `{}`.
pub open spec fn con_signo(n: int) -> Seq<char> {
    if n < 0 {
        seq!['-'] + decimal((-n) as nat)
    } else {
        decimal(n as nat)
    }
}

/// Una operación por generación: así el coste de la ficha es el de esta
/// generación con sus reintentos, no el de las anteriores.
pub fn operacion_informe(id: &str, generacion: i64) -> (r: String)
    ensures
        r@ == "informe-"@ + id@ + "-"@ + con_signo(generacion as int),
{
    let mut r = String::from_str("informe-");
    anadir_str(&mut r, id);
    anadir_str(&mut r, "-");
    if generacion < 0 {
        anadir_str(&mut r, "-");
        let m: u64 = if generacion == i64::MIN {
            9223372036854775808u64
        } else {
            (-generacion) as u64
        };
        anadir_decimal(&mut r, m);
        proof {
            reveal_strlit("-");
        }
        assert(r@ =~= "informe-"@ + id@ + "-"@ + con_signo(generacion as int));
    } else {
        anadir_decimal(&mut r, generacion as u64);
    }
    r
}

/// Cuántos roles están hechos.
pub open spec fn hechos(estados: Seq<Seq<char>>) -> nat
    decreases estados.len(),
{
    if estados.len() == 0 {
        0
    } else {
        hechos(estados.drop_last()) + (if estados.last() == "hecho"@ {
            1nat
        } else {
            0nat
        })
    }
}

/// Las llamadas al modelo de un informe: una por rol hecho y la síntesis.
pub fn llamadas(roles: &Vec<RolTrabajo>) -> (r: usize)
    requires
        roles.len() < usize::MAX,
    ensures
        r == hechos(roles@.map_values(|x: RolTrabajo| x.estado@)) + 1,
{
    let ghost estados = roles@.map_values(|x: RolTrabajo| x.estado@);
    let mut n: usize = 0;
    let mut i: usize = 0;
    while i < roles.len()
        invariant
            i <= roles.len() < usize::MAX,
            estados == roles@.map_values(|x: RolTrabajo| x.estado@),
            n == hechos(estados.take(i as int)),
            n <= i,
        decreases roles.len() - i,
    {
        assert(estados.take(i + 1).drop_last() =~= estados.take(i as int));
        assert(estados.take(i + 1).last() == roles@[i as int].estado@);
        if textos_iguales(roles[i].estado.as_str(), "hecho") {
            n = n + 1;
        }
        i = i + 1;
    }
    assert(estados.take(roles@.len() as int) =~= estados);
    n + 1
}

} // verus!
