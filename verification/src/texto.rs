//! Herramientas de texto sobre `Seq<char>`: recortes, líneas, palabras,
//! uniones y números en decimal. Cada función ejecutable dice en su contrato
//! el valor exacto que devuelve.

use vstd::prelude::*;
use vstd::string::StringSliceAdditionalSpecFns;

verus! {

// ---------------------------------------------------------------------------
// Propiedades de caracteres que da la biblioteca estándar.
// ---------------------------------------------------------------------------

/// Si `c` tiene la propiedad Unicode `White_Space` (`char::is_whitespace`):
/// los controles del tabulador al retorno de carro, el espacio, U+0085,
/// U+00A0, U+1680, de U+2000 a U+200A, U+2028, U+2029, U+202F, U+205F y U+3000.
#[verifier::opaque]
pub open spec fn blanco(c: char) -> bool {
    ||| '\t' <= c <= '\r'
    ||| c == ' '
    ||| c == '\u{85}'
    ||| c == '\u{a0}'
    ||| c == '\u{1680}'
    ||| '\u{2000}' <= c <= '\u{200a}'
    ||| c == '\u{2028}'
    ||| c == '\u{2029}'
    ||| c == '\u{202f}'
    ||| c == '\u{205f}'
    ||| c == '\u{3000}'
}

/// Si `c` es alfabético o numérico según Unicode (`char::is_alphanumeric`).
pub uninterp spec fn alfanumerico(c: char) -> bool;

/// El texto en minúsculas según Unicode (`str::to_lowercase`).
pub uninterp spec fn minusculas(s: Seq<char>) -> Seq<char>;

/// Lo que da `char::to_uppercase` para `c`, que puede ser más de un carácter.
pub uninterp spec fn mayuscula(c: char) -> Seq<char>;

/// `char::is_whitespace`: si `c` tiene la propiedad `White_Space` de
/// Unicode, comprobado contra la lista de `blanco`.
pub fn es_blanco(c: char) -> (r: bool)
    ensures
        r == blanco(c),
{
    proof {
        reveal(blanco);
    }
    ('\t' <= c && c <= '\r') || c == ' ' || c == '\u{85}' || c == '\u{a0}' || c == '\u{1680}'
        || ('\u{2000}' <= c && c <= '\u{200a}') || c == '\u{2028}' || c == '\u{2029}'
        || c == '\u{202f}' || c == '\u{205f}' || c == '\u{3000}'
}

/// `char::is_alphanumeric`: si `c` es letra o número según Unicode. Sus
/// ejemplos documentados: las letras y cifras ASCII lo son.
#[verifier::external_body]
pub(crate) fn es_alfanumerico(c: char) -> (r: bool)
    ensures
        r == alfanumerico(c),
        (('a' <= c <= 'z') || ('A' <= c <= 'Z') || ('0' <= c <= '9')) ==> r,
{
    c.is_alphanumeric()
}

/// `str::to_lowercase`: el texto en minúsculas; el resultado es función del
/// texto y nada más.
#[verifier::external_body]
pub(crate) fn a_minusculas(s: &str) -> (r: String)
    ensures
        r@ == minusculas(s@),
{
    s.to_lowercase()
}

/// `char::to_uppercase`: los caracteres de la mayúscula de `c`, que según su
/// documentación son uno o más.
#[verifier::external_body]
pub(crate) fn a_mayuscula(c: char) -> (r: Vec<char>)
    ensures
        r@ == mayuscula(c),
        r@.len() >= 1,
{
    c.to_uppercase().collect()
}

/// `String::push`: añade un carácter al final.
#[verifier::external_body]
pub(crate) fn empujar(s: &mut String, c: char)
    ensures
        final(s)@ == old(s)@.push(c),
{
    s.push(c)
}

// ---------------------------------------------------------------------------
// Conversión entre textos y vectores de caracteres.
// ---------------------------------------------------------------------------

/// Los caracteres de `s`, en orden.
pub fn caracteres(s: &str) -> (v: Vec<char>)
    ensures
        v@ == s@,
{
    let mut v: Vec<char> = Vec::new();
    for c in it: s.chars()
        invariant
            v@ == it.seq().take(it.index() as int),
    {
        v.push(c);
    }
    v
}

/// El texto formado por `v[a..b]`.
pub fn texto_de(v: &Vec<char>, a: usize, b: usize) -> (r: String)
    requires
        a <= b <= v.len(),
    ensures
        r@ == v@.subrange(a as int, b as int),
{
    let mut r = String::new();
    let mut i = a;
    while i < b
        invariant
            a <= i <= b <= v.len(),
            r@ == v@.subrange(a as int, i as int),
        decreases b - i,
    {
        empujar(&mut r, v[i]);
        assert(v@.subrange(a as int, i + 1) == v@.subrange(a as int, i as int).push(v@[i as int]));
        i = i + 1;
    }
    r
}

/// El texto formado por todos los caracteres de `v`.
pub fn texto(v: &Vec<char>) -> (r: String)
    ensures
        r@ == v@,
{
    let r = texto_de(v, 0, v.len());
    assert(v@.subrange(0, v@.len() as int) == v@);
    r
}

/// Añade a `s` los caracteres de `v`.
pub fn anadir(s: &mut String, v: &Vec<char>)
    ensures
        final(s)@ == old(s)@ + v@,
{
    let t = texto(v);
    s.append(t.as_str());
}

/// Añade a `s` el texto `t`.
pub fn anadir_str(s: &mut String, t: &str)
    ensures
        final(s)@ == old(s)@ + t@,
{
    s.append(t);
}

// ---------------------------------------------------------------------------
// Clases de caracteres que se recortan en los bordes.
// ---------------------------------------------------------------------------

/// Qué caracteres se quitan de un borde.
#[derive(Clone, Copy, PartialEq, Eq, Structural)]
pub enum Clase {
    /// Espacios en blanco según Unicode (`trim`).
    Blanco,
    /// Comillas rectas, angulares y tipográficas dobles.
    Comillas,
    /// Comillas rectas y angulares (sin las tipográficas).
    ComillasCortas,
    /// El punto.
    Punto,
    /// La almohadilla.
    Almohadilla,
    /// El asterisco.
    Asterisco,
    /// El acento grave de los cercos de código.
    Grave,
    /// La barra.
    Barra,
    /// Lo que no es letra ni número.
    NoAlfanumerico,
    /// Los finales de frase: punto, exclamación, interrogación y salto de línea.
    FinFrase,
}

pub open spec fn en_clase(k: Clase, c: char) -> bool {
    match k {
        Clase::Blanco => blanco(c),
        Clase::Comillas => c == '"' || c == '«' || c == '»' || c == '\u{201c}' || c == '\u{201d}',
        Clase::ComillasCortas => c == '"' || c == '«' || c == '»',
        Clase::Punto => c == '.',
        Clase::Almohadilla => c == '#',
        Clase::Asterisco => c == '*',
        Clase::Grave => c == '`',
        Clase::Barra => c == '/',
        Clase::NoAlfanumerico => !alfanumerico(c),
        Clase::FinFrase => c == '.' || c == '!' || c == '?' || c == '\n',
    }
}

pub fn pertenece(k: Clase, c: char) -> (r: bool)
    ensures
        r == en_clase(k, c),
{
    match k {
        Clase::Blanco => es_blanco(c),
        Clase::Comillas => c == '"' || c == '«' || c == '»' || c == '\u{201c}' || c == '\u{201d}',
        Clase::ComillasCortas => c == '"' || c == '«' || c == '»',
        Clase::Punto => c == '.',
        Clase::Almohadilla => c == '#',
        Clase::Asterisco => c == '*',
        Clase::Grave => c == '`',
        Clase::Barra => c == '/',
        Clase::NoAlfanumerico => !es_alfanumerico(c),
        Clase::FinFrase => c == '.' || c == '!' || c == '?' || c == '\n',
    }
}

/// `s` sin los caracteres de la clase `k` del principio.
pub open spec fn sin_inicio(s: Seq<char>, k: Clase) -> Seq<char>
    decreases s.len(),
{
    if s.len() > 0 && en_clase(k, s[0]) {
        sin_inicio(s.drop_first(), k)
    } else {
        s
    }
}

/// `s` sin los caracteres de la clase `k` del final.
pub open spec fn sin_fin(s: Seq<char>, k: Clase) -> Seq<char>
    decreases s.len(),
{
    if s.len() > 0 && en_clase(k, s.last()) {
        sin_fin(s.drop_last(), k)
    } else {
        s
    }
}

/// `s` sin los caracteres de la clase `k` de ninguno de los dos bordes.
pub open spec fn sin_bordes(s: Seq<char>, k: Clase) -> Seq<char> {
    sin_fin(sin_inicio(s, k), k)
}

/// `str::trim`: sin blancos al principio ni al final.
pub open spec fn recortar(s: Seq<char>) -> Seq<char> {
    sin_bordes(s, Clase::Blanco)
}

/// Los `n` primeros caracteres, o todos si hay menos (`chars().take(n)`).
pub open spec fn primeros<A>(s: Seq<A>, n: int) -> Seq<A> {
    if n < s.len() {
        s.take(n)
    } else {
        s
    }
}

pub proof fn lema_sin_inicio_es_sufijo(s: Seq<char>, k: Clase)
    ensures
        sin_inicio(s, k).len() <= s.len(),
        sin_inicio(s, k) == s.subrange(s.len() - sin_inicio(s, k).len(), s.len() as int),
    decreases s.len(),
{
    if s.len() > 0 && en_clase(k, s[0]) {
        lema_sin_inicio_es_sufijo(s.drop_first(), k);
        let t = sin_inicio(s.drop_first(), k);
        assert(s.drop_first().subrange(s.len() - 1 - t.len(), s.len() - 1) =~= s.subrange(
            s.len() - t.len(),
            s.len() as int,
        ));
    } else {
        assert(s.subrange(0, s.len() as int) =~= s);
    }
}

pub proof fn lema_sin_fin_es_prefijo(s: Seq<char>, k: Clase)
    ensures
        sin_fin(s, k).len() <= s.len(),
        sin_fin(s, k) == s.subrange(0, sin_fin(s, k).len() as int),
    decreases s.len(),
{
    if s.len() > 0 && en_clase(k, s.last()) {
        lema_sin_fin_es_prefijo(s.drop_last(), k);
        let t = sin_fin(s.drop_last(), k);
        assert(s.drop_last().subrange(0, t.len() as int) =~= s.subrange(0, t.len() as int));
    } else {
        assert(s.subrange(0, s.len() as int) =~= s);
    }
}

/// El primer índice de `v[a..b]` desde el que ya no hay caracteres de `k`.
pub fn saltar_inicio(v: &Vec<char>, a: usize, b: usize, k: Clase) -> (r: usize)
    requires
        a <= b <= v.len(),
    ensures
        a <= r <= b,
        v@.subrange(r as int, b as int) == sin_inicio(v@.subrange(a as int, b as int), k),
{
    let mut i = a;
    while i < b && pertenece(k, v[i])
        invariant
            a <= i <= b <= v.len(),
            sin_inicio(v@.subrange(a as int, b as int), k) == sin_inicio(
                v@.subrange(i as int, b as int),
                k,
            ),
        decreases b - i,
    {
        assert(v@.subrange(i as int, b as int).drop_first() =~= v@.subrange(i + 1, b as int));
        i = i + 1;
    }
    i
}

/// El índice final de `v[a..b]` sin los caracteres de `k` del final.
pub fn saltar_fin(v: &Vec<char>, a: usize, b: usize, k: Clase) -> (r: usize)
    requires
        a <= b <= v.len(),
    ensures
        a <= r <= b,
        v@.subrange(a as int, r as int) == sin_fin(v@.subrange(a as int, b as int), k),
{
    let mut j = b;
    while j > a && pertenece(k, v[j - 1])
        invariant
            a <= j <= b <= v.len(),
            sin_fin(v@.subrange(a as int, b as int), k) == sin_fin(
                v@.subrange(a as int, j as int),
                k,
            ),
        decreases j - a,
    {
        assert(v@.subrange(a as int, j as int).drop_last() =~= v@.subrange(a as int, j - 1));
        j = j - 1;
    }
    j
}

/// La ventana `v[r.0..r.1]` sin los caracteres de `k` de los bordes de `v[a..b]`.
pub fn bordes(v: &Vec<char>, a: usize, b: usize, k: Clase) -> (r: (usize, usize))
    requires
        a <= b <= v.len(),
    ensures
        a <= r.0 <= r.1 <= b,
        v@.subrange(r.0 as int, r.1 as int) == sin_bordes(v@.subrange(a as int, b as int), k),
{
    let i = saltar_inicio(v, a, b, k);
    let j = saltar_fin(v, i, b, k);
    (i, j)
}

/// `s.trim()` como texto nuevo.
pub fn recortado(s: &str) -> (r: String)
    ensures
        r@ == recortar(s@),
{
    let v = caracteres(s);
    let (i, j) = bordes(&v, 0, v.len(), Clase::Blanco);
    assert(v@.subrange(0, v@.len() as int) == v@);
    texto_de(&v, i, j)
}

/// Si los dos textos son iguales.
pub fn mismo_texto(a: &str, b: &str) -> (r: bool)
    ensures
        r == (a@ == b@),
{
    let v = caracteres(a);
    assert(v@.subrange(0, v@.len() as int) == v@);
    iguales(&v, 0, v.len(), b)
}

/// `s.trim().chars().take(n)`: sin blancos en los bordes y hasta `n` caracteres.
pub fn recortado_hasta(s: &str, n: usize) -> (r: String)
    ensures
        r@ == primeros(recortar(s@), n as int),
{
    let t = recortado(s);
    primeros_de(t.as_str(), n)
}

/// Un texto opcional recortado y limitado a `n` caracteres, si queda algo.
pub open spec fn dado(t: Option<Seq<char>>, n: int) -> Option<Seq<char>> {
    match t {
        Some(x) => if primeros(recortar(x), n).len() > 0 {
            Some(primeros(recortar(x), n))
        } else {
            None
        },
        None => None,
    }
}

/// `t.map(|t| t.trim().chars().take(n).collect()).filter(|t| !t.is_empty())`.
pub fn dado_hasta(t: Option<&str>, n: usize) -> (r: Option<String>)
    ensures
        match r {
            Some(x) => dado(crate::llm::opcion_str(t), n as int) == Some(x@),
            None => dado(crate::llm::opcion_str(t), n as int) is None,
        },
{
    match t {
        Some(x) => {
            let c = recortado_hasta(x, n);
            if c.as_str().unicode_len() > 0 {
                Some(c)
            } else {
                None
            }
        },
        None => None,
    }
}

/// Los `n` primeros caracteres de `s`.
pub fn primeros_de(s: &str, n: usize) -> (r: String)
    ensures
        r@ == primeros(s@, n as int),
{
    let v = caracteres(s);
    let fin = if n < v.len() { n } else { v.len() };
    let r = texto_de(&v, 0, fin);
    assert(v@.subrange(0, v@.len() as int) == v@);
    r
}

} // verus!

verus! {

// ---------------------------------------------------------------------------
// Uniones, palabras y líneas.
// ---------------------------------------------------------------------------

/// Los trozos de `ws` unidos con `sep` entre cada dos (`join`).
pub open spec fn unir(ws: Seq<Seq<char>>, sep: Seq<char>) -> Seq<char>
    decreases ws.len(),
{
    if ws.len() == 0 {
        seq![]
    } else if ws.len() == 1 {
        ws[0]
    } else {
        unir(ws.drop_last(), sep) + sep + ws.last()
    }
}

/// Lectura de `s` de izquierda a derecha partiendo por blancos: las palabras
/// ya cerradas y la que está a medias.
pub open spec fn palabras_y_resto(s: Seq<char>) -> (Seq<Seq<char>>, Seq<char>)
    decreases s.len(),
{
    if s.len() == 0 {
        (seq![], seq![])
    } else {
        let (ws, w) = palabras_y_resto(s.drop_last());
        if blanco(s.last()) {
            if w.len() > 0 {
                (ws.push(w), seq![])
            } else {
                (ws, w)
            }
        } else {
            (ws, w.push(s.last()))
        }
    }
}

/// `split_whitespace`: los tramos máximos de caracteres que no son blancos,
/// en orden.
pub open spec fn palabras(s: Seq<char>) -> Seq<Seq<char>> {
    let (ws, w) = palabras_y_resto(s);
    if w.len() > 0 {
        ws.push(w)
    } else {
        ws
    }
}

/// `split_whitespace().collect::<Vec<_>>().join(" ")`: las palabras separadas
/// por un solo espacio.
pub open spec fn colapsar(s: Seq<char>) -> Seq<char> {
    unir(palabras(s), seq![' '])
}

/// Quita el `\r` final de una línea que terminaba en `\n`.
pub open spec fn sin_retorno(l: Seq<char>) -> Seq<char> {
    if l.len() > 0 && l.last() == '\r' {
        l.drop_last()
    } else {
        l
    }
}

/// Lectura de `s` de izquierda a derecha partiendo por `\n`: las líneas ya
/// cerradas y la que está a medias.
pub open spec fn lineas_y_resto(s: Seq<char>) -> (Seq<Seq<char>>, Seq<char>)
    decreases s.len(),
{
    if s.len() == 0 {
        (seq![], seq![])
    } else {
        let (ls, l) = lineas_y_resto(s.drop_last());
        if s.last() == '\n' {
            (ls.push(sin_retorno(l)), seq![])
        } else {
            (ls, l.push(s.last()))
        }
    }
}

/// `str::lines`: las líneas de `s`, sin su `\n` ni el `\r` que lo preceda; el
/// último salto es opcional.
pub open spec fn lineas(s: Seq<char>) -> Seq<Seq<char>> {
    let (ls, l) = lineas_y_resto(s);
    if l.len() > 0 {
        ls.push(l)
    } else {
        ls
    }
}

/// Vista de un vector de textos como secuencia de secuencias de caracteres.
pub open spec fn vistas(v: Seq<Vec<char>>) -> Seq<Seq<char>> {
    v.map_values(|x: Vec<char>| x@)
}

pub open spec fn vistas_str(v: Seq<String>) -> Seq<Seq<char>> {
    v.map_values(|x: String| x@)
}

/// Las palabras de `v`.
pub fn palabras_de(v: &Vec<char>) -> (r: Vec<Vec<char>>)
    ensures
        vistas(r@) == palabras(v@),
{
    let mut ws: Vec<Vec<char>> = Vec::new();
    let mut w: Vec<char> = Vec::new();
    let mut i: usize = 0;
    while i < v.len()
        invariant
            i <= v.len(),
            (vistas(ws@), w@) == palabras_y_resto(v@.take(i as int)),
        decreases v.len() - i,
    {
        let c = v[i];
        assert(v@.take(i + 1).drop_last() =~= v@.take(i as int));
        if es_blanco(c) {
            if w.len() > 0 {
                let hecha = w;
                ws.push(hecha);
                w = Vec::new();
                assert(vistas(ws@) =~= vistas(ws@.drop_last()).push(hecha@));
            }
        } else {
            w.push(c);
        }
        i = i + 1;
    }
    assert(v@.take(v@.len() as int) =~= v@);
    if w.len() > 0 {
        let hecha = w;
        ws.push(hecha);
        assert(vistas(ws@) =~= vistas(ws@.drop_last()).push(hecha@));
    }
    ws
}

/// Los trozos de `ws` unidos con `sep`.
pub fn unir_de(ws: &Vec<Vec<char>>, sep: &str) -> (r: String)
    ensures
        r@ == unir(vistas(ws@), sep@),
{
    let mut r = String::new();
    let mut i: usize = 0;
    while i < ws.len()
        invariant
            i <= ws.len(),
            r@ == unir(vistas(ws@).take(i as int), sep@),
        decreases ws.len() - i,
    {
        let ghost antes = vistas(ws@).take(i as int);
        assert(vistas(ws@).take(i + 1).drop_last() =~= antes);
        if i > 0 {
            anadir_str(&mut r, sep);
        }
        anadir(&mut r, &ws[i]);
        assert(vistas(ws@).take(i + 1).last() == ws@[i as int]@);
        if i == 0 {
            assert(r@ =~= unir(vistas(ws@).take(1), sep@));
        }
        i = i + 1;
    }
    assert(vistas(ws@).take(ws@.len() as int) =~= vistas(ws@));
    r
}

/// Los trozos de `ws` unidos con `sep` (trozos como `String`).
pub fn unir_strings(ws: &Vec<String>, sep: &str) -> (r: String)
    ensures
        r@ == unir(vistas_str(ws@), sep@),
{
    let mut r = String::new();
    let mut i: usize = 0;
    while i < ws.len()
        invariant
            i <= ws.len(),
            r@ == unir(vistas_str(ws@).take(i as int), sep@),
        decreases ws.len() - i,
    {
        let ghost antes = vistas_str(ws@).take(i as int);
        assert(vistas_str(ws@).take(i + 1).drop_last() =~= antes);
        if i > 0 {
            anadir_str(&mut r, sep);
        }
        anadir_str(&mut r, ws[i].as_str());
        assert(vistas_str(ws@).take(i + 1).last() == ws@[i as int]@);
        if i == 0 {
            assert(r@ =~= unir(vistas_str(ws@).take(1), sep@));
        }
        i = i + 1;
    }
    assert(vistas_str(ws@).take(ws@.len() as int) =~= vistas_str(ws@));
    r
}

/// `split_whitespace().collect::<Vec<_>>().join(" ")`.
pub fn colapsado(s: &str) -> (r: String)
    ensures
        r@ == colapsar(s@),
{
    let v = caracteres(s);
    let ws = palabras_de(&v);
    proof {
        reveal_strlit(" ");
    }
    assert(" "@ =~= seq![' ']);
    unir_de(&ws, " ")
}

/// Las líneas de `v`.
pub fn lineas_de(v: &Vec<char>) -> (r: Vec<Vec<char>>)
    ensures
        vistas(r@) == lineas(v@),
{
    let mut ls: Vec<Vec<char>> = Vec::new();
    let mut l: Vec<char> = Vec::new();
    let mut i: usize = 0;
    while i < v.len()
        invariant
            i <= v.len(),
            (vistas(ls@), l@) == lineas_y_resto(v@.take(i as int)),
        decreases v.len() - i,
    {
        let c = v[i];
        assert(v@.take(i + 1).drop_last() =~= v@.take(i as int));
        if c == '\n' {
            let mut hecha = l;
            if hecha.len() > 0 && hecha[hecha.len() - 1] == '\r' {
                hecha.pop();
            }
            assert(hecha@ == sin_retorno(lineas_y_resto(v@.take(i as int)).1));
            ls.push(hecha);
            l = Vec::new();
            assert(vistas(ls@) =~= vistas(ls@.drop_last()).push(hecha@));
        } else {
            l.push(c);
        }
        i = i + 1;
    }
    assert(v@.take(v@.len() as int) =~= v@);
    if l.len() > 0 {
        let hecha = l;
        ls.push(hecha);
        assert(vistas(ls@) =~= vistas(ls@.drop_last()).push(hecha@));
    }
    ls
}

} // verus!

verus! {

// ---------------------------------------------------------------------------
// Números en decimal.
// ---------------------------------------------------------------------------

/// La cifra decimal `d` como carácter.
pub open spec fn digito(d: int) -> char {
    if d == 0 {
        '0'
    } else if d == 1 {
        '1'
    } else if d == 2 {
        '2'
    } else if d == 3 {
        '3'
    } else if d == 4 {
        '4'
    } else if d == 5 {
        '5'
    } else if d == 6 {
        '6'
    } else if d == 7 {
        '7'
    } else if d == 8 {
        '8'
    } else {
        '9'
    }
}

/// `n` escrito en decimal, sin ceros a la izquierda (`{}`).
pub open spec fn decimal(n: nat) -> Seq<char>
    decreases n,
{
    if n < 10 {
        seq![digito(n as int)]
    } else {
        decimal(n / 10).push(digito((n % 10) as int))
    }
}

/// `n` en decimal con al menos dos cifras (`{:02}`).
pub open spec fn dos_cifras(n: nat) -> Seq<char> {
    if n < 10 {
        seq!['0', digito(n as int)]
    } else {
        decimal(n)
    }
}

fn cifra(d: u64) -> (c: char)
    requires
        d < 10,
    ensures
        c == digito(d as int),
{
    if d == 0 {
        '0'
    } else if d == 1 {
        '1'
    } else if d == 2 {
        '2'
    } else if d == 3 {
        '3'
    } else if d == 4 {
        '4'
    } else if d == 5 {
        '5'
    } else if d == 6 {
        '6'
    } else if d == 7 {
        '7'
    } else if d == 8 {
        '8'
    } else {
        '9'
    }
}

/// Añade `n` en decimal al final de `s`.
pub fn anadir_decimal(s: &mut String, n: u64)
    ensures
        final(s)@ == old(s)@ + decimal(n as nat),
    decreases n,
{
    if n < 10 {
        empujar(s, cifra(n));
        assert(old(s)@.push(digito(n as int)) =~= old(s)@ + decimal(n as nat));
    } else {
        anadir_decimal(s, n / 10);
        empujar(s, cifra(n % 10));
        assert(old(s)@ + decimal((n / 10) as nat) + seq![digito((n % 10) as int)] =~= old(s)@
            + decimal(n as nat));
    }
}

/// Añade `n` con al menos dos cifras al final de `s`.
pub fn anadir_dos_cifras(s: &mut String, n: u64)
    ensures
        final(s)@ == old(s)@ + dos_cifras(n as nat),
{
    if n < 10 {
        empujar(s, '0');
        empujar(s, cifra(n));
        assert(old(s)@.push('0').push(digito(n as int)) =~= old(s)@ + dos_cifras(n as nat));
    } else {
        anadir_decimal(s, n);
    }
}

// ---------------------------------------------------------------------------
// Lectura de enteros sin signo (`str::parse::<u64>`).
// ---------------------------------------------------------------------------

pub open spec fn es_cifra(c: char) -> bool {
    '0' <= c <= '9'
}

pub open spec fn solo_cifras(s: Seq<char>) -> bool {
    forall|i: int| 0 <= i < s.len() ==> es_cifra(#[trigger] s[i])
}

/// El valor de una secuencia de cifras decimales.
pub open spec fn valor(s: Seq<char>) -> int
    decreases s.len(),
{
    if s.len() == 0 {
        0
    } else {
        valor(s.drop_last()) * 10 + (s.last() as int - '0' as int)
    }
}

/// `str::parse::<u64>`: un `+` opcional y al menos una cifra, sin pasar de
/// `u64::MAX`.
pub open spec fn leer_u64(s: Seq<char>) -> Option<u64> {
    let d = if s.len() > 0 && s[0] == '+' {
        s.drop_first()
    } else {
        s
    };
    if d.len() > 0 && solo_cifras(d) && valor(d) <= u64::MAX {
        Some(valor(d) as u64)
    } else {
        None
    }
}

proof fn lema_valor_crece(s: Seq<char>, k: int)
    requires
        solo_cifras(s),
        0 <= k <= s.len(),
    ensures
        valor(s.take(k)) <= valor(s),
        0 <= valor(s.take(k)),
    decreases s.len() - k,
{
    if k < s.len() {
        lema_valor_crece(s, k + 1);
        assert(s.take(k + 1).drop_last() =~= s.take(k));
        assert(es_cifra(s[k]));
    } else {
        assert(s.take(k) =~= s);
        lema_valor_no_negativo(s);
    }
}

proof fn lema_valor_no_negativo(s: Seq<char>)
    requires
        solo_cifras(s),
    ensures
        0 <= valor(s),
    decreases s.len(),
{
    if s.len() > 0 {
        assert(solo_cifras(s.drop_last()) ) by {
            assert forall|i: int| 0 <= i < s.drop_last().len() implies es_cifra(
                #[trigger] s.drop_last()[i],
            ) by {
                assert(s.drop_last()[i] == s[i]);
            }
        }
        lema_valor_no_negativo(s.drop_last());
        assert(es_cifra(s[s.len() - 1]));
    }
}

/// Lee `v[a..b]` como entero sin signo, como `str::parse::<u64>`.
pub fn leer_u64_de(v: &Vec<char>, a: usize, b: usize) -> (r: Option<u64>)
    requires
        a <= b <= v.len(),
    ensures
        r == leer_u64(v@.subrange(a as int, b as int)),
{
    let ghost s = v@.subrange(a as int, b as int);
    let inicio = if a < b && v[a] == '+' {
        a + 1
    } else {
        a
    };
    let ghost d = v@.subrange(inicio as int, b as int);
    assert(d =~= (if s.len() > 0 && s[0] == '+' {
        s.drop_first()
    } else {
        s
    }));
    if inicio >= b {
        return None;
    }
    let mut i = inicio;
    while i < b
        invariant
            inicio <= i <= b <= v.len(),
            d == v@.subrange(inicio as int, b as int),
            forall|j: int| inicio <= j < i ==> es_cifra(#[trigger] v@[j]),
            leer_u64(v@.subrange(a as int, b as int)) == (if d.len() > 0 && solo_cifras(d) && valor(d) <= u64::MAX {
                Some(valor(d) as u64)
            } else {
                None
            }),
        decreases b - i,
    {
        if !('0' <= v[i] && v[i] <= '9') {
            assert(d[i - inicio] == v@[i as int]);
            assert(!es_cifra(d[i - inicio]));
            return None;
        }
        i = i + 1;
    }
    assert(solo_cifras(d)) by {
        assert forall|j: int| 0 <= j < d.len() implies es_cifra(#[trigger] d[j]) by {
            assert(d[j] == v@[inicio + j]);
        }
    }
    let mut acc: u64 = 0;
    let mut i = inicio;
    while i < b
        invariant
            inicio <= i <= b <= v.len(),
            d == v@.subrange(inicio as int, b as int),
            solo_cifras(d),
            leer_u64(v@.subrange(a as int, b as int)) == (if d.len() > 0 && solo_cifras(d) && valor(d) <= u64::MAX {
                Some(valor(d) as u64)
            } else {
                None
            }),
            acc == valor(d.take(i - inicio)),
        decreases b - i,
    {
        assert(d.take(i - inicio + 1).drop_last() =~= d.take(i - inicio));
        assert(d.take(i - inicio + 1).last() == v@[i as int]);
        assert(es_cifra(d[i - inicio]));
        let c = v[i] as u64 - '0' as u64;
        proof {
            lema_valor_crece(d, i - inicio + 1);
        }
        if acc > (u64::MAX - c) / 10 {
            assert(valor(d.take(i - inicio + 1)) > u64::MAX) by (nonlinear_arith)
                requires
                    acc > (u64::MAX - c) / 10,
                    valor(d.take(i - inicio + 1)) == acc * 10 + c,
                    c < 10,
            ;
            return None;
        }
        assert(acc * 10 + c <= u64::MAX) by (nonlinear_arith)
            requires
                acc <= (u64::MAX - c) / 10,
                c < 10,
        ;
        acc = acc * 10 + c;
        i = i + 1;
    }
    assert(d.take(d.len() as int) =~= d);
    Some(acc)
}

} // verus!

verus! {

// ---------------------------------------------------------------------------
// Búsquedas, comparaciones y trozos.
// ---------------------------------------------------------------------------

/// Posición de la primera aparición de `c` en `s`, o `-1`.
pub open spec fn posicion(s: Seq<char>, c: char) -> int
    decreases s.len(),
{
    if s.len() == 0 {
        -1
    } else {
        let p = posicion(s.drop_last(), c);
        if p >= 0 {
            p
        } else if s.last() == c {
            s.len() - 1
        } else {
            -1
        }
    }
}

/// Posición de la última aparición de `c` en `s`, o `-1`.
pub open spec fn ultima_posicion(s: Seq<char>, c: char) -> int
    decreases s.len(),
{
    if s.len() == 0 {
        -1
    } else if s.last() == c {
        s.len() - 1
    } else {
        ultima_posicion(s.drop_last(), c)
    }
}

/// Lo que hay antes de la primera `c` (todo si no hay): `split(c).next()`.
pub open spec fn hasta(s: Seq<char>, c: char) -> Seq<char> {
    let p = posicion(s, c);
    if p >= 0 {
        s.take(p)
    } else {
        s
    }
}

/// Lectura de `s` partiendo por `c`: los trozos cerrados y el que está a medias.
pub open spec fn trozos_y_resto(s: Seq<char>, c: char) -> (Seq<Seq<char>>, Seq<char>)
    decreases s.len(),
{
    if s.len() == 0 {
        (seq![], seq![])
    } else {
        let (ts, t) = trozos_y_resto(s.drop_last(), c);
        if s.last() == c {
            (ts.push(t), seq![])
        } else {
            (ts, t.push(s.last()))
        }
    }
}

/// `s.split(c)`: los trozos entre cada dos `c`, vacíos incluidos.
pub open spec fn trozos(s: Seq<char>, c: char) -> Seq<Seq<char>> {
    let (ts, t) = trozos_y_resto(s, c);
    ts.push(t)
}

/// Primera aparición de `c` en `v[a..b]`, relativa a `a`, o `-1`.
pub fn buscar(v: &Vec<char>, a: usize, b: usize, c: char) -> (r: i64)
    requires
        a <= b <= v.len(),
        v.len() < i64::MAX,
    ensures
        r == posicion(v@.subrange(a as int, b as int), c),
{
    let mut i = a;
    while i < b
        invariant
            a <= i <= b <= v.len() < i64::MAX,
            posicion(v@.subrange(a as int, i as int), c) == -1,
        decreases b - i,
    {
        assert(v@.subrange(a as int, i + 1).drop_last() =~= v@.subrange(a as int, i as int));
        if v[i] == c {
            assert(v@.subrange(a as int, b as int).take(i - a + 1) =~= v@.subrange(
                a as int,
                i + 1,
            ));
            assert(posicion(v@.subrange(a as int, i + 1), c) == i - a);
            proof {
                lema_posicion_prefijo(v@.subrange(a as int, b as int), c, i - a);
            }
            return (i - a) as i64;
        }
        i = i + 1;
    }
    -1
}

/// Si la primera `c` de `s` está dentro de los `k` primeros, es la misma que
/// la de `s.take(k)`.
pub proof fn lema_posicion_prefijo(s: Seq<char>, c: char, p: int)
    requires
        0 <= p < s.len(),
        posicion(s.take(p + 1), c) == p,
    ensures
        posicion(s, c) == p,
    decreases s.len(),
{
    if s.len() > p + 1 {
        assert(s.drop_last().take(p + 1) =~= s.take(p + 1));
        lema_posicion_prefijo(s.drop_last(), c, p);
    } else {
        assert(s.take(p + 1) =~= s);
    }
}

/// Última aparición de `c` en `v[a..b]`, relativa a `a`, o `-1`.
pub fn buscar_ultima(v: &Vec<char>, a: usize, b: usize, c: char) -> (r: i64)
    requires
        a <= b <= v.len(),
        v.len() < i64::MAX,
    ensures
        r == ultima_posicion(v@.subrange(a as int, b as int), c),
{
    let mut j = b;
    while j > a
        invariant
            a <= j <= b <= v.len() < i64::MAX,
            ultima_posicion(v@.subrange(a as int, b as int), c) == ultima_posicion(
                v@.subrange(a as int, j as int),
                c,
            ),
        decreases j - a,
    {
        assert(v@.subrange(a as int, j as int).drop_last() =~= v@.subrange(a as int, j - 1));
        if v[j - 1] == c {
            return (j - 1 - a) as i64;
        }
        j = j - 1;
    }
    -1
}

/// Si `v[a..b]` es igual a `t`.
pub fn iguales(v: &Vec<char>, a: usize, b: usize, t: &str) -> (r: bool)
    requires
        a <= b <= v.len(),
    ensures
        r == (v@.subrange(a as int, b as int) == t@),
{
    let w = caracteres(t);
    if b - a != w.len() {
        return false;
    }
    let mut i: usize = 0;
    while i < w.len()
        invariant
            a <= b <= v.len(),
            b - a == w.len(),
            w@ == t@,
            i <= w.len(),
            forall|j: int| 0 <= j < i ==> v@[a + j] == w@[j],
        decreases w.len() - i,
    {
        if v[a + i] != w[i] {
            assert(v@.subrange(a as int, b as int)[i as int] != t@[i as int]);
            return false;
        }
        i = i + 1;
    }
    assert(v@.subrange(a as int, b as int) =~= t@);
    true
}

/// Si `v[a..b]` empieza por `t`.
pub fn empieza_por(v: &Vec<char>, a: usize, b: usize, t: &str) -> (r: bool)
    requires
        a <= b <= v.len(),
    ensures
        r == (t@.len() <= b - a && v@.subrange(a as int, a + t@.len()) == t@),
{
    let w = caracteres(t);
    if w.len() > b - a {
        return false;
    }
    iguales(v, a, a + w.len(), t)
}

/// Si `v[a..b]` contiene el carácter `c`.
pub fn contiene(v: &Vec<char>, a: usize, b: usize, c: char) -> (r: bool)
    requires
        a <= b <= v.len(),
    ensures
        r == v@.subrange(a as int, b as int).contains(c),
{
    let mut i = a;
    while i < b
        invariant
            a <= i <= b <= v.len(),
            forall|j: int| a <= j < i ==> v@[j] != c,
        decreases b - i,
    {
        if v[i] == c {
            assert(v@.subrange(a as int, b as int)[i - a] == c);
            return true;
        }
        i = i + 1;
    }
    assert forall|j: int| 0 <= j < b - a implies v@.subrange(a as int, b as int)[j] != c by {
        assert(v@.subrange(a as int, b as int)[j] == v@[a + j]);
    }
    false
}

/// Los trozos de `v[a..b]` separados por `c`.
pub fn trozos_de(v: &Vec<char>, a: usize, b: usize, c: char) -> (r: Vec<Vec<char>>)
    requires
        a <= b <= v.len(),
    ensures
        vistas(r@) == trozos(v@.subrange(a as int, b as int), c),
{
    let ghost s = v@.subrange(a as int, b as int);
    let mut ts: Vec<Vec<char>> = Vec::new();
    let mut t: Vec<char> = Vec::new();
    let mut i = a;
    while i < b
        invariant
            a <= i <= b <= v.len(),
            s == v@.subrange(a as int, b as int),
            (vistas(ts@), t@) == trozos_y_resto(s.take(i - a), c),
        decreases b - i,
    {
        assert(s.take(i - a + 1).drop_last() =~= s.take(i - a));
        assert(s.take(i - a + 1).last() == v@[i as int]);
        if v[i] == c {
            let hecho = t;
            ts.push(hecho);
            t = Vec::new();
            assert(vistas(ts@) =~= vistas(ts@.drop_last()).push(hecho@));
        } else {
            t.push(v[i]);
        }
        i = i + 1;
    }
    assert(s.take(b - a) =~= s);
    let hecho = t;
    ts.push(hecho);
    assert(vistas(ts@) =~= vistas(ts@.drop_last()).push(hecho@));
    ts
}

} // verus!

verus! {

/// Lo que es la primera posición: o no hay `c`, o está ahí y no antes.
pub proof fn lema_posicion(s: Seq<char>, c: char)
    ensures
        -1 <= posicion(s, c) < s.len(),
        posicion(s, c) >= 0 ==> s[posicion(s, c)] == c,
        posicion(s, c) >= 0 ==> forall|j: int| 0 <= j < posicion(s, c) ==> s[j] != c,
        posicion(s, c) < 0 ==> !s.contains(c),
    decreases s.len(),
{
    if s.len() > 0 {
        lema_posicion(s.drop_last(), c);
        if posicion(s, c) < 0 {
            assert forall|j: int| 0 <= j < s.len() implies s[j] != c by {
                if j < s.len() - 1 {
                    assert(s.drop_last()[j] == s[j]);
                    assert(!s.drop_last().contains(c));
                }
            }
        } else {
            assert forall|j: int| 0 <= j < posicion(s, c) implies s[j] != c by {
                assert(s.drop_last()[j] == s[j]);
                if posicion(s.drop_last(), c) < 0 {
                    assert(!s.drop_last().contains(c));
                }
            }
        }
    }
}

} // verus!

verus! {

/// Lo que es la última posición: o no hay `c`, o está ahí y no después.
pub proof fn lema_ultima_posicion(s: Seq<char>, c: char)
    ensures
        -1 <= ultima_posicion(s, c) < s.len(),
        ultima_posicion(s, c) >= 0 ==> s[ultima_posicion(s, c)] == c,
    decreases s.len(),
{
    if s.len() > 0 && s.last() != c {
        lema_ultima_posicion(s.drop_last(), c);
    }
}

} // verus!

verus! {

/// Una copia de `v`.
pub fn copia(v: &Vec<char>) -> (r: Vec<char>)
    ensures
        r@ == v@,
{
    let mut r: Vec<char> = Vec::new();
    let mut i: usize = 0;
    while i < v.len()
        invariant
            i <= v.len(),
            r@ == v@.take(i as int),
        decreases v.len() - i,
    {
        r.push(v[i]);
        assert(v@.take(i + 1) =~= v@.take(i as int).push(v@[i as int]));
        i = i + 1;
    }
    assert(v@.take(v@.len() as int) =~= v@);
    r
}

} // verus!

verus! {

/// Lectura de `s` partiendo por los caracteres de `k`.
pub open spec fn fragmentos_y_resto(s: Seq<char>, k: Clase) -> (Seq<Seq<char>>, Seq<char>)
    decreases s.len(),
{
    if s.len() == 0 {
        (seq![], seq![])
    } else {
        let (fs, f) = fragmentos_y_resto(s.drop_last(), k);
        if en_clase(k, s.last()) {
            (fs.push(f), seq![])
        } else {
            (fs, f.push(s.last()))
        }
    }
}

/// `s.split(|c| en_clase(k, c))`: los trozos entre separadores, vacíos incluidos.
pub open spec fn fragmentos(s: Seq<char>, k: Clase) -> Seq<Seq<char>> {
    let (fs, f) = fragmentos_y_resto(s, k);
    fs.push(f)
}

/// Los trozos de `v` separados por caracteres de `k`.
pub fn fragmentos_de(v: &Vec<char>, k: Clase) -> (r: Vec<Vec<char>>)
    ensures
        vistas(r@) == fragmentos(v@, k),
{
    let mut fs: Vec<Vec<char>> = Vec::new();
    let mut f: Vec<char> = Vec::new();
    let mut i: usize = 0;
    while i < v.len()
        invariant
            i <= v.len(),
            (vistas(fs@), f@) == fragmentos_y_resto(v@.take(i as int), k),
        decreases v.len() - i,
    {
        assert(v@.take(i + 1).drop_last() =~= v@.take(i as int));
        if pertenece(k, v[i]) {
            let hecho = f;
            let ghost antes = fs@;
            fs.push(hecho);
            f = Vec::new();
            assert(vistas(fs@) =~= vistas(antes).push(hecho@));
        } else {
            f.push(v[i]);
        }
        i = i + 1;
    }
    assert(v@.take(v@.len() as int) =~= v@);
    let hecho = f;
    let ghost antes = fs@;
    fs.push(hecho);
    assert(vistas(fs@) =~= vistas(antes).push(hecho@));
    fs
}

} // verus!

verus! {

/// Los trozos de `s` no son más largos que `s`.
pub proof fn lema_fragmentos_acotados(s: Seq<char>, k: Clase)
    ensures
        forall|i: int| 0 <= i < fragmentos(s, k).len() ==> (#[trigger] fragmentos(s, k)[i]).len() <= s.len(),
{
    lema_fragmentos_y_resto_acotados(s, k);
}

proof fn lema_fragmentos_y_resto_acotados(s: Seq<char>, k: Clase)
    ensures
        forall|i: int|
            0 <= i < fragmentos_y_resto(s, k).0.len() ==> (#[trigger] fragmentos_y_resto(s, k).0[i]).len()
                <= s.len(),
        fragmentos_y_resto(s, k).1.len() <= s.len(),
    decreases s.len(),
{
    if s.len() > 0 {
        lema_fragmentos_y_resto_acotados(s.drop_last(), k);
    }
}

} // verus!
