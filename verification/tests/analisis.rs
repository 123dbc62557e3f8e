use desdemovil::analisis::{
    choca_con_serie, componer, comprobar_modelo, de_serie, de_serie_todos, limpiar_titulo,
    llamadas, modelo_pedido, operacion_informe, puede_reintentar, recomendados_de, rol_valido,
    rol_borrable, rol_editable, rol_propio, roles_de_serie, roles_pedidos, roles_por_hacer,
    selector_modelos, sin_respuesta, titulo_de, Ficha,
    ModeloEntrada, NuevoRol, RolCopia, RolTrabajo, MAXIMO_ROLES, NUMERO_DE_SERIE,
};
use desdemovil::llm::NotaFuente;
use desdemovil::notas::clave;

fn rol(id: &str, estado: &str, texto: &str) -> RolTrabajo {
    RolTrabajo {
        id: id.into(),
        nombre: id.to_uppercase(),
        icono: "🧪".into(),
        enfoque: String::new(),
        estado: estado.into(),
        texto: texto.into(),
        error: if estado == "fallido" {
            "tiempo agotado".into()
        } else {
            String::new()
        },
    }
}

#[test]
fn nueve_de_serie_con_ids_y_nombres_unicos() {
    let serie = de_serie_todos();
    assert_eq!(serie.len(), 9);
    assert_eq!(NUMERO_DE_SERIE, 9);
    for (i, a) in serie.iter().enumerate() {
        for b in serie.iter().skip(i + 1) {
            assert_ne!(a.id, b.id);
            assert_ne!(clave(a.nombre), clave(b.nombre));
        }
    }
}

#[test]
fn el_titulo_sale_del_primer_encabezado() {
    let (t, s) = titulo_de("\n# «Reservas del club».\n\n## Resumen ejecutivo\nTexto.");
    assert_eq!(t, "Reservas del club");
    assert!(s.starts_with("## Resumen ejecutivo"));
    let (t, s) = titulo_de("## Resumen ejecutivo\nTexto.");
    assert_eq!(t, "Informe");
    assert!(s.starts_with("## Resumen"));
}

#[test]
fn el_informe_lleva_roles_notas_y_ficha() {
    let roles = vec![
        rol("critico", "hecho", "**Veredicto:** flojo."),
        rol("economico", "fallido", ""),
    ];
    let fuentes = vec![NotaFuente {
        titulo: "Nota uno".into(),
        creada_en: "2026-09-24T10:00:00.000Z".into(),
        contenido: "x".into(),
        etiquetas: vec![],
    }];
    // El coste llega ya escrito en dólares: 0.0412 se escribe «0,04».
    let t = componer(
        "## Resumen ejecutivo\nBien.",
        "Título",
        &roles,
        &fuentes,
        &Ficha {
            modelo: Some("a/b"),
            servido: Some("a/b-2"),
            llamadas: 2,
            coste: Some("0,04"),
            pedido_en: "2026-09-24T10:05:00.000Z",
            instruccion: "",
        },
    );
    assert!(t.starts_with("# Título\n\n## Resumen ejecutivo"));
    assert!(t.contains("## Análisis por rol\n\n### 🧪 CRITICO\n\n**Veredicto:** flojo."));
    assert!(t.contains("### 🧪 ECONOMICO\n\n_Este rol no respondió (tiempo agotado)"));
    assert!(t.contains("## Notas de origen"));
    assert!(t.contains("- **Modelo:** `a/b` (servido por `a/b-2`)"));
    assert!(t.contains("**Coste:** 0,04 $"));
    assert!(t.contains("- **Generado:** 2026-09-24 10:05 UTC"));
    assert!(!t.contains("Instrucción"));
}

#[test]
fn un_nombre_de_serie_no_se_puede_usar_para_uno_propio() {
    assert!(choca_con_serie("  crítico "));
    assert!(choca_con_serie("LEGAL Y PRIVACIDAD"));
    assert!(!choca_con_serie("Accesibilidad"));
}

#[test]
fn el_rol_propio_se_normaliza() {
    let (n, i, e) = rol_valido(&NuevoRol {
        nombre: "  Accesibilidad   web ".into(),
        icono: "".into(),
        enfoque: " contraste ".into(),
    })
    .unwrap();
    assert_eq!(
        (n.as_str(), i.as_str(), e.as_str()),
        ("Accesibilidad web", "🧪", "contraste")
    );
    assert!(rol_valido(&NuevoRol {
        nombre: "x".repeat(31),
        icono: "".into(),
        enfoque: "y".into()
    })
    .is_err());
    assert!(rol_valido(&NuevoRol {
        nombre: "x".into(),
        icono: "".into(),
        enfoque: "  ".into()
    })
    .is_err());
}

#[test]
fn los_limites_de_un_rol_propio() {
    let (n, i, e) = rol_valido(&NuevoRol {
        nombre: "n".repeat(30),
        icono: "🙂🙂🙂🙂🙂🙂🙂🙂🙂🙂".into(),
        enfoque: "e".repeat(600),
    })
    .unwrap();
    assert_eq!(
        (n.chars().count(), i.chars().count(), e.chars().count()),
        (30, 8, 600)
    );
    assert!(rol_valido(&NuevoRol {
        nombre: "n".into(),
        icono: "".into(),
        enfoque: "e".repeat(601),
    })
    .is_err());
}

#[test]
fn los_de_serie_se_encuentran_por_id() {
    assert_eq!(de_serie("legal").map(|r| r.nombre), Some("Legal y privacidad"));
    assert!(de_serie("nadie").is_none());
}

fn propio(id: &str) -> RolCopia {
    RolCopia {
        id: id.into(),
        nombre: "Accesibilidad".into(),
        icono: "♿".into(),
        enfoque: "contraste".into(),
    }
}

#[test]
fn los_roles_pedidos_se_resuelven_sin_repetir() {
    let ids: Vec<String> = vec![" critico ".into(), "critico".into(), "".into(), "r1".into()];
    let r = roles_pedidos(&ids, &vec![propio("r1")]).ok().unwrap();
    assert_eq!(r.len(), 2);
    assert_eq!(r[0].id, "critico");
    assert_eq!(r[0].nombre, "Crítico");
    assert_eq!(r[1].id, "r1");
    assert_eq!(r[1].icono, "♿");
}

#[test]
fn los_roles_pedidos_tienen_limites() {
    let e = roles_pedidos(&vec!["  ".into()], &vec![]).err().unwrap();
    assert_eq!((e.estado, e.mensaje.as_str()), (400, "elige al menos un rol"));
    let muchos: Vec<String> = (0..9).map(|i| format!("r{i}")).collect();
    let e = roles_pedidos(&muchos, &vec![]).err().unwrap();
    assert_eq!(e.mensaje, "demasiados roles (9), el máximo es 8");
    assert_eq!(MAXIMO_ROLES, 8);
    let e = roles_pedidos(&vec!["critico".into(), "fantasma".into()], &vec![]).err().unwrap();
    assert_eq!((e.estado, e.mensaje.as_str()), (400, "el rol fantasma no existe"));
}

#[test]
fn el_titulo_se_limpia_de_asteriscos_y_comillas() {
    assert_eq!(limpiar_titulo(" **«Plan».** "), "Plan");
    assert_eq!(limpiar_titulo(&"p".repeat(90)).chars().count(), 80);
}

#[test]
fn reintentar_solo_un_informe_con_algo_pendiente() {
    let e = puede_reintentar("encargo", "listo", &vec![]).unwrap_err();
    assert_eq!(e.estado, 400);
    let e = puede_reintentar("informe", "pendiente", &vec![]).unwrap_err();
    assert_eq!((e.estado, e.mensaje.as_str()), (409, "ese informe ya se está generando"));
    let e = puede_reintentar("informe", "listo", &vec!["hecho".into()]).unwrap_err();
    assert_eq!((e.estado, e.mensaje.as_str()), (400, "no hay nada que reintentar"));
    assert!(puede_reintentar("informe", "listo", &vec!["hecho".into(), "fallido".into()]).is_ok());
    assert!(puede_reintentar("informe", "fallido", &vec!["hecho".into()]).is_ok());
}

#[test]
fn se_rehacen_solo_los_roles_sin_hacer() {
    let roles = vec![rol("a", "hecho", "x"), rol("b", "fallido", ""), rol("c", "espera", "")];
    assert_eq!(roles_por_hacer(&roles), vec![1, 2]);
    assert_eq!(llamadas(&roles), 2);
}

#[test]
fn sin_ningun_rol_se_dice_el_primer_motivo() {
    let roles = vec![rol("a", "espera", ""), rol("b", "fallido", "")];
    assert_eq!(sin_respuesta(&roles), "no respondió ningún rol (tiempo agotado)");
    assert_eq!(sin_respuesta(&vec![rol("a", "espera", "")]), "no respondió ningún rol (sin detalle)");
}

#[test]
fn una_operacion_por_generacion() {
    assert_eq!(operacion_informe("d1", 3), "informe-d1-3");
    assert_eq!(operacion_informe("d1", 0), "informe-d1-0");
    assert_eq!(operacion_informe("d1", -2), "informe-d1--2");
}

fn modelo(id: &str, nombre: &str, json: bool, modalidades: &[&str]) -> ModeloEntrada {
    ModeloEntrada {
        id: id.into(),
        nombre: nombre.into(),
        json,
        modalidades: modalidades.iter().map(|m| m.to_string()).collect(),
    }
}

#[test]
fn el_modelo_pedido_tiene_que_estar_en_el_catalogo() {
    let c = vec![modelo("a/json", "A", true, &[]), modelo("b/texto", "B", false, &["text"])];
    assert_eq!(comprobar_modelo("a/json", &c, true).ok().as_deref(), Some("a/json"));
    assert_eq!(comprobar_modelo("b/texto", &c, false).ok().as_deref(), Some("b/texto"));
    let e = comprobar_modelo("b/texto", &c, true).err().unwrap();
    assert_eq!(e.mensaje, "b/texto no da salida estructurada y el encargo la necesita: elige otro");
    let e = comprobar_modelo("z", &c, false).err().unwrap();
    assert_eq!((e.estado, e.mensaje.as_str()), (400, "el modelo z no está en el catálogo"));
    assert_eq!(modelo_pedido(Some("  ")), None);
    assert_eq!(modelo_pedido(Some(" m ")).as_deref(), Some("m"));
}

#[test]
fn el_selector_ordena_los_de_texto_por_nombre() {
    let c = vec![
        modelo("z/1", "zeta", true, &["text"]),
        modelo("i/1", "Imagen", true, &["image"]),
        modelo("a/1", "", true, &[]),
        modelo("b/1", "Beta", true, &["image", "text"]),
    ];
    let rec = recomendados_de(Some(" b/1 , ,z/1"));
    assert_eq!(rec, vec![("b/1".to_string(), "Recomendado".to_string()), ("z/1".to_string(), "Recomendado".to_string())]);
    let s = selector_modelos(&c, &rec);
    let orden: Vec<usize> = s.iter().map(|m| m.indice).collect();
    assert_eq!(orden, vec![2, 3, 0]);
    assert_eq!(s[0].nombre, "a/1");
    assert_eq!(s[1].recomendado.as_deref(), Some("Recomendado"));
    assert_eq!(s[0].recomendado, None);
    assert_eq!(recomendados_de(None).len(), 4);
}

#[test]
fn los_roles_de_serie_no_se_tocan_y_su_nombre_no_se_repite() {
    let e = rol_editable("critico").unwrap_err();
    assert_eq!((e.estado, e.mensaje.as_str()), (400, "los roles de serie no se editan: duplícalo como propio"));
    assert!(rol_editable("r1").is_ok());
    let e = rol_borrable("usuario").unwrap_err();
    assert_eq!((e.estado, e.mensaje.as_str()), (400, "los roles de serie no se borran"));
    assert!(rol_borrable("r1").is_ok());
    let e = rol_propio(&NuevoRol { nombre: " Crítico ".into(), icono: "".into(), enfoque: "x".into() })
        .err()
        .unwrap();
    assert_eq!((e.estado, e.mensaje.as_str()), (409, "ya hay un rol de serie con ese nombre"));
    let e = rol_propio(&NuevoRol { nombre: "".into(), icono: "".into(), enfoque: "x".into() }).err().unwrap();
    assert_eq!((e.estado, e.mensaje.as_str()), (400, "el nombre tiene que tener entre 1 y 30 caracteres"));
    let (n, i, _) = rol_propio(&NuevoRol { nombre: "Accesible".into(), icono: " ♿ ".into(), enfoque: "x".into() })
        .ok()
        .unwrap();
    assert_eq!((n.as_str(), i.as_str()), ("Accesible", "♿"));
    let serie = roles_de_serie();
    assert_eq!(serie.len(), 9);
    assert_eq!(serie[0].id, "critico");
    assert!(serie.iter().all(|r| !r.propio));
}
