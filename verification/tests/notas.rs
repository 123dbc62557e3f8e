use desdemovil::llm::{NotaFuente, Sugerencia};
use desdemovil::notas::{
    acceso_valido, candidato, clave, clave_en, consulta_fts, consulta_notas, contenido_nota,
    descripcion_valida, encabeza_sin_proyecto, es_solo, fecha_al_minuto, filtro_proyecto,
    hace_falta_raiz, iguales_en_tiempo_constante, instruccion_valida, nombre_repetido,
    nombre_valido, notas_a_mover, notas_de_origen, notas_pedidas, orden_de_fuentes,
    ordenar_proyectos, padre_confirmado, padre_pedido, plan_proyecto, plan_regeneracion,
    proyecto_comun, proyecto_confirmado, proyecto_pedido, proyecto_ref, puerto_de, quedan_roles,
    roles_de_regeneracion, ruta_db_de, sql_proyecto, sugerencia_util, terminos_busqueda,
    texto_documento, texto_editado, tipo_valido, titulo_provisional, titulo_respaldo, token_de,
    Filtro, FiltroProyecto, FuenteDocumento, ProyectoActual, Regeneracion, ResumenProyecto,
    RolesRegenerados,
};

#[test]
fn la_clave_iguala_mayusculas_acentos_y_espacios() {
    assert_eq!(clave("  Café   Con  LECHE "), "cafe con leche");
    assert_eq!(clave("  Crítico "), "critico");
    assert_eq!(clave("ÁÀÄÂ éèëê ÍÌÏÎ óòöô ÚÙÜÛ"), "aaaa eeee iiii oooo uuuu");
    assert_eq!(clave(""), "");
    assert_eq!(clave_en("Diseño", Some("p1")), "p1/diseño");
    assert_eq!(clave_en("Ídolo", None), "idolo");
}

#[test]
fn la_busqueda_pone_cada_palabra_entre_comillas_y_con_prefijo() {
    assert_eq!(
        consulta_fts("hola, mundo! di\"go"),
        Some("\"hola\"* \"mundo\"* \"di\"\"go\"*".to_string())
    );
    assert_eq!(consulta_fts("  ¿? ... "), None);
}

#[test]
fn el_filtro_de_proyecto() {
    assert!(matches!(filtro_proyecto(None), FiltroProyecto::Todas));
    assert!(matches!(filtro_proyecto(Some("  ")), FiltroProyecto::Todas));
    assert!(matches!(filtro_proyecto(Some(" ninguno ")), FiltroProyecto::SinProyecto));
    match filtro_proyecto(Some(" p1 ")) {
        FiltroProyecto::De(id) => assert_eq!(id, "p1"),
        _ => panic!("se esperaba un proyecto"),
    }
    assert!(es_solo(Some("1")) && es_solo(Some("true")));
    assert!(!es_solo(Some(" 1")) && !es_solo(None));
}

#[test]
fn el_sql_de_proyecto_incluye_las_subcarpetas_salvo_con_solo() {
    let mut sql = String::from("X");
    let mut args = vec!["q".to_string()];
    sql_proyecto(&mut sql, &mut args, "n.proyecto_id", Some("p1"), false);
    assert_eq!(
        sql,
        "X AND n.proyecto_id IN (SELECT id FROM proyectos WHERE id = ?2 OR padre_id = ?2)"
    );
    assert_eq!(args, vec!["q", "p1"]);
    let mut sql = String::new();
    let mut args = vec![];
    sql_proyecto(&mut sql, &mut args, "c", Some("ninguno"), true);
    assert_eq!(sql, " AND c IS NULL");
    assert!(args.is_empty());
}

fn filtro() -> Filtro {
    Filtro { q: None, etiqueta: None, desde: None, hasta: None, proyecto: None, solo: None }
}

#[test]
fn la_consulta_de_notas_numera_sus_parametros() {
    let (sql, args) = consulta_notas(&filtro());
    assert_eq!(sql, "SELECT id FROM notas n WHERE 1=1 ORDER BY n.creada_en DESC LIMIT 500");
    assert!(args.is_empty());
    let f = Filtro {
        q: Some("reunión lunes".into()),
        etiqueta: Some(" trabajo ".into()),
        desde: Some("".into()),
        hasta: Some("2026-10-01".into()),
        proyecto: Some("p1".into()),
        solo: Some("1".into()),
    };
    let (sql, args) = consulta_notas(&f);
    assert_eq!(
        sql,
        "SELECT id FROM notas n WHERE 1=1 AND n.id IN (SELECT id FROM notas_fts WHERE notas_fts MATCH ?1) AND EXISTS (SELECT 1 FROM etiquetas x WHERE x.nota_id = n.id AND x.etiqueta = ?2) AND n.creada_en <= ?3 AND n.proyecto_id = ?4 ORDER BY n.creada_en DESC LIMIT 500"
    );
    assert_eq!(args, vec!["\"reunión\"* \"lunes\"*", "trabajo", "2026-10-01", "p1"]);
}

#[test]
fn nombre_y_descripcion_de_proyecto() {
    assert_eq!(nombre_valido("  App   de  notas "), Ok("App de notas".to_string()));
    assert_eq!(nombre_valido("   "), Err("el proyecto necesita un nombre"));
    assert_eq!(nombre_valido(&"n".repeat(61)), Err("el nombre pasa de 60 caracteres"));
    assert_eq!(nombre_valido(&"n".repeat(60)).map(|n| n.len()), Ok(60));
    assert_eq!(descripcion_valida(&format!("  {}", "d".repeat(400))), "d".repeat(300));
}

fn fuente(titulo: &str, creada_en: &str) -> FuenteDocumento {
    FuenteDocumento { id: "n".into(), titulo: titulo.into(), creada_en: creada_en.into() }
}

#[test]
fn el_titulo_provisional_nunca_queda_vacio() {
    assert_eq!(titulo_provisional(&[]), "Documento");
    assert_eq!(titulo_provisional(&[fuente(&"t".repeat(90), "")]), "t".repeat(80));
    assert_eq!(
        titulo_provisional(&[fuente("Uno", ""), fuente("Dos", "")]),
        "Uno y una nota mas"
    );
    assert_eq!(
        titulo_provisional(&[fuente("Uno", ""), fuente("Dos", ""), fuente("Tres", "")]),
        "Uno y 2 notas mas"
    );
}

#[test]
fn las_notas_de_origen_con_fecha_al_minuto() {
    assert_eq!(fecha_al_minuto("2026-09-24T10:05:33.000Z"), "2026-09-24 10:05");
    let notas = vec![
        NotaFuente {
            titulo: "Uno".into(),
            creada_en: "2026-09-24T10:05:33.000Z".into(),
            contenido: String::new(),
            etiquetas: vec![],
        },
        NotaFuente {
            titulo: "Dos".into(),
            creada_en: "2026-09-25T11:00:00.000Z".into(),
            contenido: String::new(),
            etiquetas: vec!["a".into(), "b".into()],
        },
    ];
    assert_eq!(
        notas_de_origen(&notas),
        "## Notas de origen\n\n1. **Uno** · 2026-09-24 10:05 UTC\n2. **Dos** · 2026-09-25 11:00 UTC · etiquetas: a, b\n"
    );
    assert_eq!(
        texto_documento("  # Doc  ", &notas[..1]),
        "# Doc\n\n## Notas de origen\n\n1. **Uno** · 2026-09-24 10:05 UTC\n"
    );
}

#[test]
fn el_token_se_compara_entero() {
    assert!(iguales_en_tiempo_constante("abc", "abc"));
    assert!(!iguales_en_tiempo_constante("abc", "abd"));
    assert!(!iguales_en_tiempo_constante("abc", "ab"));
    assert_eq!(token_de(Some("  secreto ")).as_deref(), Some("secreto"));
    assert_eq!(token_de(Some("   ")), None);
    assert!(acceso_valido(None, None));
    assert!(acceso_valido(Some("secreto"), Some("Bearer  secreto ")));
    assert!(!acceso_valido(Some("secreto"), Some("bearer secreto")));
    assert!(!acceso_valido(Some("secreto"), Some("Bearer otro")));
    assert!(!acceso_valido(Some("secreto"), None));
}

#[test]
fn el_titulo_de_respaldo_es_la_primera_frase() {
    assert_eq!(titulo_respaldo("  hola mundo. Otra cosa"), "Hola mundo");
    assert_eq!(titulo_respaldo(" ... \n "), "Nota sin título");
    let largo = format!("{} final", "palabra ".repeat(10));
    assert_eq!(
        titulo_respaldo(&largo),
        "Palabra palabra palabra palabra palabra palabra palabra…"
    );
    assert_eq!(titulo_respaldo(&"x".repeat(70)), format!("X{}…", "x".repeat(58)));
}

#[test]
fn el_titulo_de_respaldo_no_pasa_de_sesenta() {
    let con_espacios = "una frase muy larga que sigue y sigue sin parar nunca jamás de los jamases";
    let t = titulo_respaldo(con_espacios);
    assert!(t.chars().count() <= 60);
    assert!(t.ends_with('…'));
    let sin_espacios = "y".repeat(80);
    assert_eq!(titulo_respaldo(&sin_espacios).chars().count(), 60);
    let a70 = "a".repeat(70);
    let t70 = titulo_respaldo(&a70);
    assert!(t70.starts_with('A') && t70.chars().count() <= 60);
    let justa = "z".repeat(60);
    assert_eq!(titulo_respaldo(&justa), format!("Z{}", "z".repeat(59)));
    assert_eq!(titulo_respaldo("ßa"), "SSa");
}

#[test]
fn tipos_y_listas_de_ids() {
    assert_eq!(tipo_valido(None).ok(), Some(None));
    assert_eq!(tipo_valido(Some(" informe ")).ok(), Some(Some("informe")));
    let e = tipo_valido(Some("otro")).err().unwrap();
    assert_eq!((e.estado, e.mensaje.as_str()), (400, "tipo desconocido: otro"));
    let ids: Vec<String> = vec![" a ".into(), "a".into(), "".into(), "b".into()];
    assert_eq!(notas_pedidas(&ids).ok(), Some(vec!["a".to_string(), "b".to_string()]));
    let e = notas_pedidas(&vec!["  ".into()]).err().unwrap();
    assert_eq!((e.estado, e.mensaje.as_str()), (400, "no hay notas seleccionadas"));
    let muchas: Vec<String> = (0..21).map(|i| format!("n{i}")).collect();
    let e = notas_pedidas(&muchas).err().unwrap();
    assert_eq!(e.mensaje, "demasiadas notas (21), el maximo es 20");
    let e = notas_a_mover(&vec![]).err().unwrap();
    assert_eq!(e.mensaje, "no hay notas que mover");
}

fn resumen(nombre: &str, archivado: bool, creado: Option<&str>, ultima: Option<&str>, notas: i64) -> ResumenProyecto {
    ResumenProyecto {
        nombre: nombre.into(),
        descripcion: String::new(),
        archivado,
        creado_en: creado.map(String::from),
        ultima_nota: ultima.map(String::from),
        notas,
    }
}

#[test]
fn la_lista_de_proyectos_filtra_y_ordena() {
    let ps = vec![
        resumen("Zeta", false, Some("2026-01-01"), Some("2026-03-01"), 1),
        resumen("Álamo", false, Some("2026-02-01"), None, 5),
        resumen("Archivado", true, Some("2026-04-01"), Some("2026-05-01"), 9),
    ];
    let nada = terminos_busqueda(None);
    assert_eq!(ordenar_proyectos(&ps, &nada, None, None), vec![0, 1]);
    assert_eq!(ordenar_proyectos(&ps, &nada, Some("nombre"), Some("1")), vec![1, 2, 0]);
    assert_eq!(ordenar_proyectos(&ps, &nada, Some("notas"), Some("true")), vec![2, 1, 0]);
    assert_eq!(ordenar_proyectos(&ps, &nada, Some("creacion"), None), vec![1, 0]);
    let t = terminos_busqueda(Some("ALAMO"));
    assert_eq!(ordenar_proyectos(&ps, &t, None, None), vec![1]);
    assert!(encabeza_sin_proyecto(false, 0, 1));
    assert!(!encabeza_sin_proyecto(true, 3, 0));
    assert!(!encabeza_sin_proyecto(false, 0, 0));
}

#[test]
fn arranque_y_proyectos_pedidos() {
    assert_eq!(puerto_de(Some("3000")), 3000);
    assert_eq!(puerto_de(Some("+80")), 80);
    assert_eq!(puerto_de(Some("70000")), 8080);
    assert_eq!(puerto_de(Some("x")), 8080);
    assert_eq!(puerto_de(None), 8080);
    assert_eq!(ruta_db_de(Some("/tmp/x.db"), true), "/tmp/x.db");
    assert_eq!(ruta_db_de(None, true), "/data/notas.db");
    assert_eq!(ruta_db_de(None, false), "notas.db");
    assert_eq!(proyecto_pedido(Some(" p1 ")).as_deref(), Some("p1"));
    assert_eq!(proyecto_pedido(Some("ninguno")), None);
    assert_eq!(proyecto_pedido(Some("  ")), None);
    assert_eq!(proyecto_confirmado("p1".into(), true).ok().as_deref(), Some("p1"));
    let e = proyecto_confirmado("p1".into(), false).err().unwrap();
    assert_eq!((e.estado, e.mensaje.as_str()), (400, "el proyecto no existe"));
    assert_eq!(padre_pedido(Some(" ")), None);
    assert_eq!(padre_confirmado("p".into(), Some((false, true))).ok(), Some(("p".to_string(), true)));
    let e = padre_confirmado("p".into(), Some((true, false))).err().unwrap();
    assert_eq!(e.mensaje, "una subcarpeta no puede tener subcarpetas");
    let e = padre_confirmado("p".into(), None).err().unwrap();
    assert_eq!(e.mensaje, "el proyecto padre no existe");
    assert_eq!(nombre_repetido(Some("p")).estado, 409);
    assert_eq!(nombre_repetido(None).mensaje, "ya hay un proyecto con ese nombre");
}

#[test]
fn la_referencia_a_un_proyecto() {
    let r = proyecto_ref(Some("s".into()), Some("Sub".into()), Some("p".into()), Some("Padre".into())).unwrap();
    assert_eq!((r.id.as_str(), r.nombre.as_str()), ("s", "Sub"));
    assert_eq!(r.padre.map(|p| p.nombre).as_deref(), Some("Padre"));
    let r = proyecto_ref(Some("s".into()), Some("Sub".into()), Some("p".into()), None).unwrap();
    assert!(r.padre.is_none());
    assert!(proyecto_ref(None, Some("x".into()), None, None).is_none());
}

#[test]
fn la_subcarpeta_que_sube_busca_un_nombre_libre() {
    assert_eq!(candidato("Diseño", "App", 1), "Diseño");
    assert_eq!(candidato("Diseño", "App", 2), "Diseño (App)");
    assert_eq!(candidato("Diseño", "App", 3), "Diseño (App) 3");
}

#[test]
fn textos_del_usuario() {
    assert_eq!(contenido_nota("  hola ").ok().as_deref(), Some("hola"));
    let e = contenido_nota("   ").err().unwrap();
    assert_eq!((e.estado, e.mensaje.as_str()), (400, "contenido vacío"));
    let e = texto_editado("").err().unwrap();
    assert_eq!(e.mensaje, "documento vacio");
    assert!(sugerencia_util(&Sugerencia { titulo: " T ".into(), etiquetas: vec![] }));
    assert!(!sugerencia_util(&Sugerencia { titulo: "  ".into(), etiquetas: vec![] }));
    assert_eq!(instruccion_valida(&format!(" {} ", "i".repeat(600))), "i".repeat(500));
}

fn actual(padre: Option<&str>, subcarpetas: i64) -> ProyectoActual {
    ProyectoActual { nombre: "Actual".into(), padre: padre.map(String::from), subcarpetas }
}

#[test]
fn editar_un_proyecto() {
    let p = plan_proyecto("p1", None, &actual(None, 0), None, Some(true), Some(" d ")).ok().unwrap();
    assert!(!p.cambia_clave);
    assert_eq!(p.nombre, "Actual");
    assert_eq!(p.clave, "actual");
    assert_eq!(p.padre, None);
    assert_eq!(p.descripcion.as_deref(), Some("d"));
    assert_eq!(p.archivado, Some(true));
    let p = plan_proyecto("p1", Some("Nuevo".into()), &actual(None, 0), Some(Some(("p2".into(), true))), None, None)
        .ok()
        .unwrap();
    assert!(p.cambia_clave);
    assert_eq!(p.clave, "p2/nuevo");
    assert_eq!(p.padre.as_deref(), Some("p2"));
    assert_eq!(p.archivado_padre, Some(true));
    let e = plan_proyecto("p1", None, &actual(None, 0), Some(Some(("p1".into(), false))), None, None)
        .err()
        .unwrap();
    assert_eq!(e.mensaje, "un proyecto no puede ir dentro de si mismo");
    let e = plan_proyecto("p1", None, &actual(None, 2), Some(Some(("p2".into(), false))), None, None)
        .err()
        .unwrap();
    assert_eq!(e.mensaje, "tiene subcarpetas: no puede ir dentro de otro proyecto");
    let e = plan_proyecto("p1", None, &actual(Some("p2"), 0), None, Some(false), None).err().unwrap();
    assert_eq!((e.estado, e.mensaje.as_str()), (400, "una subcarpeta se archiva con su proyecto"));
    let p = plan_proyecto("p1", None, &actual(Some("p2"), 0), Some(None), Some(false), None).ok().unwrap();
    assert!(p.cambia_clave);
    assert_eq!(p.padre, None);
}

#[test]
fn el_documento_es_del_proyecto_comun() {
    let v = |xs: &[Option<&str>]| xs.iter().map(|x| x.map(String::from)).collect::<Vec<_>>();
    assert_eq!(proyecto_comun(&v(&[Some("a"), Some("a")])).as_deref(), Some("a"));
    assert_eq!(proyecto_comun(&v(&[Some("a"), Some("b")])), None);
    assert_eq!(proyecto_comun(&v(&[Some("a"), None])), None);
    assert_eq!(proyecto_comun(&v(&[])), None);
    assert!(hace_falta_raiz(&v(&[Some("a"), Some("b")])));
    assert!(!hace_falta_raiz(&v(&[Some("a"), Some("a")])));
    assert!(!hace_falta_raiz(&v(&[Some("a"), None])));
    assert!(!hace_falta_raiz(&v(&[None, Some("a")])));
}

#[test]
fn las_notas_del_documento_van_de_la_mas_antigua_a_la_mas_reciente() {
    let f = vec![
        fuente("c", "2026-03-01"),
        fuente("a", "2026-01-01"),
        fuente("b", "2026-03-01"),
        fuente("d", "2025-12-31"),
    ];
    assert_eq!(orden_de_fuentes(&f), vec![3, 1, 0, 2]);
}

fn regeneracion(tipo: Option<&str>, modelo: Option<Option<&str>>) -> Regeneracion {
    Regeneracion {
        instruccion: Some(format!("  {}", "i".repeat(600))),
        tipo: tipo.map(String::from),
        roles: None,
        modelo: modelo.map(|m| m.map(String::from)),
    }
}

#[test]
fn regenerar_un_documento() {
    let e = plan_regeneracion("pendiente", "encargo", None, &regeneracion(None, None)).err().unwrap();
    assert_eq!((e.estado, e.mensaje.as_str()), (409, "ese documento ya se esta generando"));
    let p = plan_regeneracion("listo", "informe", Some("m".into()), &regeneracion(None, None)).ok().unwrap();
    assert_eq!(p.tipo, "informe");
    assert_eq!(p.modelo.as_deref(), Some("m"));
    assert_eq!(p.instruccion, Some("i".repeat(500)));
    let p = plan_regeneracion("fallido", "informe", Some("m".into()), &regeneracion(Some("encargo"), Some(None)))
        .ok()
        .unwrap();
    assert_eq!(p.tipo, "encargo");
    assert_eq!(p.modelo, None);
    let e = plan_regeneracion("listo", "encargo", None, &regeneracion(Some("x"), None)).err().unwrap();
    assert_eq!(e.mensaje, "tipo desconocido: x");
    assert!(matches!(roles_de_regeneracion(true, true), RolesRegenerados::Nuevos));
    assert!(matches!(roles_de_regeneracion(true, false), RolesRegenerados::Mismos));
    assert!(matches!(roles_de_regeneracion(false, true), RolesRegenerados::Ninguno));
    let e = quedan_roles(0).err().unwrap();
    assert_eq!((e.estado, e.mensaje.as_str()), (400, "elige al menos un rol"));
    assert!(quedan_roles(2).is_ok());
}
