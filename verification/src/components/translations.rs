//! Texts of the interface in Swedish and English, looked up by key.
use vstd::prelude::*;
use crate::components::settings::Language;
use crate::text::str_eq;

verus! {

/// Texts of Swedish group 0 of the keys.
pub open spec fn sv_part0(key: Seq<char>) -> Option<Seq<char>> {
    if key == "topbar.address_placeholder"@ {
        Some("Adress"@)
    } else if key == "topbar.postal_placeholder"@ {
        Some("Postnummer (valfritt)"@)
    } else if key == "topbar.add"@ {
        Some("Lägg till"@)
    } else if key == "topbar.settings_title"@ {
        Some("Inställningar"@)
    } else if key == "topbar.gps_error_title"@ {
        Some("GPS-fel"@)
    } else if key == "topbar.gps_not_found"@ {
        Some("Ingen adress hittades inom 20 m från din GPS-position."@)
    } else if key == "topbar.gps_no_permission"@ {
        Some("Kunde inte läsa GPS-position. Kontrollera att platsbehörighet är beviljad och försök igen."@)
    } else if key == "topbar.ok"@ {
        Some("OK"@)
    } else if key == "settings.title"@ {
        Some("Inställningar"@)
    } else if key == "settings.issue_report.label"@ {
        Some("Issue report"@)
    } else if key == "settings.issue_report.desc"@ {
        Some("Gå till en websida för att rapportera problem eller ge nya idéer"@)
    } else if key == "settings.import_export.title"@ {
        Some("Import / Export"@)
    } else if key == "settings.import_export.addresses_heading"@ {
        Some("Adresser"@)
    } else if key == "settings.import_export.export_label"@ {
        Some("Exportera"@)
    } else if key == "settings.import_export.export_addr_desc"@ {
        Some("Spara adresser till fil"@)
    } else if key == "settings.import_export.import_label"@ {
        Some("Importera"@)
    } else if key == "settings.import_export.import_addr_desc"@ {
        Some("Ladda adresser från fil"@)
    } else if key == "settings.import_export.settings_heading"@ {
        Some("Inställningar"@)
    } else if key == "settings.import_export.export_sett_desc"@ {
        Some("Spara inställningar till fil"@)
    } else if key == "settings.import_export.import_sett_desc"@ {
        Some("Ladda inställningar från fil"@)
    } else {
        None
    }
}

fn sv_lookup0(key: &str) -> (r: Option<&'static str>)
    ensures
        match sv_part0(key@) {
            Some(t) => r matches Some(s) && s@ == t,
            None => r is None,
        },
{
    if str_eq(key, "topbar.address_placeholder") {
        Some("Adress")
    } else if str_eq(key, "topbar.postal_placeholder") {
        Some("Postnummer (valfritt)")
    } else if str_eq(key, "topbar.add") {
        Some("Lägg till")
    } else if str_eq(key, "topbar.settings_title") {
        Some("Inställningar")
    } else if str_eq(key, "topbar.gps_error_title") {
        Some("GPS-fel")
    } else if str_eq(key, "topbar.gps_not_found") {
        Some("Ingen adress hittades inom 20 m från din GPS-position.")
    } else if str_eq(key, "topbar.gps_no_permission") {
        Some("Kunde inte läsa GPS-position. Kontrollera att platsbehörighet är beviljad och försök igen.")
    } else if str_eq(key, "topbar.ok") {
        Some("OK")
    } else if str_eq(key, "settings.title") {
        Some("Inställningar")
    } else if str_eq(key, "settings.issue_report.label") {
        Some("Issue report")
    } else if str_eq(key, "settings.issue_report.desc") {
        Some("Gå till en websida för att rapportera problem eller ge nya idéer")
    } else if str_eq(key, "settings.import_export.title") {
        Some("Import / Export")
    } else if str_eq(key, "settings.import_export.addresses_heading") {
        Some("Adresser")
    } else if str_eq(key, "settings.import_export.export_label") {
        Some("Exportera")
    } else if str_eq(key, "settings.import_export.export_addr_desc") {
        Some("Spara adresser till fil")
    } else if str_eq(key, "settings.import_export.import_label") {
        Some("Importera")
    } else if str_eq(key, "settings.import_export.import_addr_desc") {
        Some("Ladda adresser från fil")
    } else if str_eq(key, "settings.import_export.settings_heading") {
        Some("Inställningar")
    } else if str_eq(key, "settings.import_export.export_sett_desc") {
        Some("Spara inställningar till fil")
    } else if str_eq(key, "settings.import_export.import_sett_desc") {
        Some("Ladda inställningar från fil")
    } else {
        None
    }
}

/// Texts of Swedish group 1 of the keys.
pub open spec fn sv_part1(key: Seq<char>) -> Option<Seq<char>> {
    if key == "settings.notifications.title"@ {
        Some("Aviseringar"@)
    } else if key == "settings.notifications.now_label"@ {
        Some("Städas nu"@)
    } else if key == "settings.notifications.now_desc"@ {
        Some("Avisera när gatustädning pågår"@)
    } else if key == "settings.notifications.6h_label"@ {
        Some("6 timmar"@)
    } else if key == "settings.notifications.6h_desc"@ {
        Some("Avisera 6 timmar före gatustädning"@)
    } else if key == "settings.notifications.1d_label"@ {
        Some("1 dag"@)
    } else if key == "settings.notifications.1d_desc"@ {
        Some("Avisera 1 dag före gatustädning"@)
    } else if key == "settings.settings.title"@ {
        Some("Inställningar"@)
    } else if key == "settings.settings.datasource_heading"@ {
        Some("Datakälla"@)
    } else if key == "settings.settings.both_label"@ {
        Some("Miljö + Parkering"@)
    } else if key == "settings.settings.both_desc"@ {
        Some("Standard"@)
    } else if key == "settings.settings.miljo_label"@ {
        Some("Miljö"@)
    } else if key == "settings.settings.miljo_desc"@ {
        Some("Enbart gatustädning"@)
    } else if key == "settings.settings.parkering_label"@ {
        Some("Parkering"@)
    } else if key == "settings.settings.parkering_desc"@ {
        Some("Enbart parkeringszoner"@)
    } else if key == "settings.settings.all_label"@ {
        Some("Alla adresser"@)
    } else if key == "settings.settings.all_desc"@ {
        Some("Alla ~60k adresser i Malmö (kan vara långsamt)"@)
    } else if key == "settings.settings.darkmode_label"@ {
        Some("Mörkt läge"@)
    } else if key == "settings.settings.darkmode_desc"@ {
        Some("Växla mörkt/ljust tema"@)
    } else if key == "settings.settings.language_heading"@ {
        Some("Språk"@)
    } else {
        None
    }
}

fn sv_lookup1(key: &str) -> (r: Option<&'static str>)
    ensures
        match sv_part1(key@) {
            Some(t) => r matches Some(s) && s@ == t,
            None => r is None,
        },
{
    if str_eq(key, "settings.notifications.title") {
        Some("Aviseringar")
    } else if str_eq(key, "settings.notifications.now_label") {
        Some("Städas nu")
    } else if str_eq(key, "settings.notifications.now_desc") {
        Some("Avisera när gatustädning pågår")
    } else if str_eq(key, "settings.notifications.6h_label") {
        Some("6 timmar")
    } else if str_eq(key, "settings.notifications.6h_desc") {
        Some("Avisera 6 timmar före gatustädning")
    } else if str_eq(key, "settings.notifications.1d_label") {
        Some("1 dag")
    } else if str_eq(key, "settings.notifications.1d_desc") {
        Some("Avisera 1 dag före gatustädning")
    } else if str_eq(key, "settings.settings.title") {
        Some("Inställningar")
    } else if str_eq(key, "settings.settings.datasource_heading") {
        Some("Datakälla")
    } else if str_eq(key, "settings.settings.both_label") {
        Some("Miljö + Parkering")
    } else if str_eq(key, "settings.settings.both_desc") {
        Some("Standard")
    } else if str_eq(key, "settings.settings.miljo_label") {
        Some("Miljö")
    } else if str_eq(key, "settings.settings.miljo_desc") {
        Some("Enbart gatustädning")
    } else if str_eq(key, "settings.settings.parkering_label") {
        Some("Parkering")
    } else if str_eq(key, "settings.settings.parkering_desc") {
        Some("Enbart parkeringszoner")
    } else if str_eq(key, "settings.settings.all_label") {
        Some("Alla adresser")
    } else if str_eq(key, "settings.settings.all_desc") {
        Some("Alla ~60k adresser i Malmö (kan vara långsamt)")
    } else if str_eq(key, "settings.settings.darkmode_label") {
        Some("Mörkt läge")
    } else if str_eq(key, "settings.settings.darkmode_desc") {
        Some("Växla mörkt/ljust tema")
    } else if str_eq(key, "settings.settings.language_heading") {
        Some("Språk")
    } else {
        None
    }
}

/// Texts of Swedish group 2 of the keys.
pub open spec fn sv_part2(key: Seq<char>) -> Option<Seq<char>> {
    if key == "settings.settings.lang_sv"@ {
        Some("Svenska"@)
    } else if key == "settings.settings.lang_en"@ {
        Some("English"@)
    } else if key == "settings.info.title"@ {
        Some("Info"@)
    } else if key == "settings.info.about_heading"@ {
        Some("Om appen"@)
    } else if key == "settings.debug.title"@ {
        Some("Debug"@)
    } else if key == "settings.debug.addresses_label"@ {
        Some("Debug adresser"@)
    } else if key == "settings.debug.addresses_desc"@ {
        Some("Visa felsökningsinformation för adresser"@)
    } else if key == "settings.debug.test_now_label"@ {
        Some("Test Städas nu"@)
    } else if key == "settings.debug.test_now_desc"@ {
        Some("Skicka aktiv städning-avisering"@)
    } else if key == "settings.debug.test_6h_label"@ {
        Some("Test 6 timmar"@)
    } else if key == "settings.debug.test_6h_desc"@ {
        Some("Skicka 6-timmars varning"@)
    } else if key == "settings.debug.test_1d_label"@ {
        Some("Test 1 dag"@)
    } else if key == "settings.debug.test_1d_desc"@ {
        Some("Skicka 1-dags påminnelse"@)
    } else if key == "dialog.confirm_import.title"@ {
        Some("Bekräfta import"@)
    } else if key == "dialog.confirm_import.body"@ {
        Some("Detta kommer att ersätta all nuvarande data. Vill du fortsätta?"@)
    } else if key == "dialog.confirm_import.cancel"@ {
        Some("Avbryt"@)
    } else if key == "dialog.confirm_import.ok"@ {
        Some("Importera"@)
    } else if key == "dialog.error.title"@ {
        Some("Fel"@)
    } else if key == "dialog.ok"@ {
        Some("OK"@)
    } else if key == "dialog.success.title"@ {
        Some("Klart"@)
    } else {
        None
    }
}

fn sv_lookup2(key: &str) -> (r: Option<&'static str>)
    ensures
        match sv_part2(key@) {
            Some(t) => r matches Some(s) && s@ == t,
            None => r is None,
        },
{
    if str_eq(key, "settings.settings.lang_sv") {
        Some("Svenska")
    } else if str_eq(key, "settings.settings.lang_en") {
        Some("English")
    } else if str_eq(key, "settings.info.title") {
        Some("Info")
    } else if str_eq(key, "settings.info.about_heading") {
        Some("Om appen")
    } else if str_eq(key, "settings.debug.title") {
        Some("Debug")
    } else if str_eq(key, "settings.debug.addresses_label") {
        Some("Debug adresser")
    } else if str_eq(key, "settings.debug.addresses_desc") {
        Some("Visa felsökningsinformation för adresser")
    } else if str_eq(key, "settings.debug.test_now_label") {
        Some("Test Städas nu")
    } else if str_eq(key, "settings.debug.test_now_desc") {
        Some("Skicka aktiv städning-avisering")
    } else if str_eq(key, "settings.debug.test_6h_label") {
        Some("Test 6 timmar")
    } else if str_eq(key, "settings.debug.test_6h_desc") {
        Some("Skicka 6-timmars varning")
    } else if str_eq(key, "settings.debug.test_1d_label") {
        Some("Test 1 dag")
    } else if str_eq(key, "settings.debug.test_1d_desc") {
        Some("Skicka 1-dags påminnelse")
    } else if str_eq(key, "dialog.confirm_import.title") {
        Some("Bekräfta import")
    } else if str_eq(key, "dialog.confirm_import.body") {
        Some("Detta kommer att ersätta all nuvarande data. Vill du fortsätta?")
    } else if str_eq(key, "dialog.confirm_import.cancel") {
        Some("Avbryt")
    } else if str_eq(key, "dialog.confirm_import.ok") {
        Some("Importera")
    } else if str_eq(key, "dialog.error.title") {
        Some("Fel")
    } else if str_eq(key, "dialog.ok") {
        Some("OK")
    } else if str_eq(key, "dialog.success.title") {
        Some("Klart")
    } else {
        None
    }
}

/// Texts of Swedish group 3 of the keys.
pub open spec fn sv_part3(key: Seq<char>) -> Option<Seq<char>> {
    if key == "msg.export_success.addresses"@ {
        Some("Adresser exporterade!"@)
    } else if key == "msg.export_success.settings"@ {
        Some("Inställningar exporterade!"@)
    } else if key == "msg.export_fail"@ {
        Some("Export misslyckades"@)
    } else if key == "msg.export_no_addr_file"@ {
        Some("Kunde inte hitta adressfilen"@)
    } else if key == "msg.export_no_sett_file"@ {
        Some("Kunde inte hitta inställningsfilen"@)
    } else if key == "msg.import_success.addresses"@ {
        Some("Adresser importerade!"@)
    } else if key == "msg.import_success.settings"@ {
        Some("Inställningar importerade!"@)
    } else if key == "msg.import_fail"@ {
        Some("Import misslyckades"@)
    } else if key == "panel.cleaning_now"@ {
        Some("Städas nu"@)
    } else if key == "panel.within_6h"@ {
        Some("Inom 6 timmar"@)
    } else if key == "panel.within_1d"@ {
        Some("Inom 1 dag"@)
    } else if key == "panel.within_1m"@ {
        Some("Inom 1 månad"@)
    } else if key == "panel.more_than_1m"@ {
        Some("30+ dagar"@)
    } else if key == "panel.parking_only"@ {
        Some("Endast parkeringsavgift"@)
    } else if key == "panel.invalid"@ {
        Some("Ingen städning"@)
    } else if key == "panel.no_addresses"@ {
        Some("Inga adresser"@)
    } else if key == "addresses.title"@ {
        Some("Adresser"@)
    } else if key == "addresses.empty"@ {
        Some("Inga adresser tillagda"@)
    } else if key == "addresses.confirm_remove_title"@ {
        Some("Bekräfta borttagning"@)
    } else if key == "addresses.confirm_remove_msg"@ {
        Some("Är du säker på att du vill ta bort denna adress?"@)
    } else {
        None
    }
}

fn sv_lookup3(key: &str) -> (r: Option<&'static str>)
    ensures
        match sv_part3(key@) {
            Some(t) => r matches Some(s) && s@ == t,
            None => r is None,
        },
{
    if str_eq(key, "msg.export_success.addresses") {
        Some("Adresser exporterade!")
    } else if str_eq(key, "msg.export_success.settings") {
        Some("Inställningar exporterade!")
    } else if str_eq(key, "msg.export_fail") {
        Some("Export misslyckades")
    } else if str_eq(key, "msg.export_no_addr_file") {
        Some("Kunde inte hitta adressfilen")
    } else if str_eq(key, "msg.export_no_sett_file") {
        Some("Kunde inte hitta inställningsfilen")
    } else if str_eq(key, "msg.import_success.addresses") {
        Some("Adresser importerade!")
    } else if str_eq(key, "msg.import_success.settings") {
        Some("Inställningar importerade!")
    } else if str_eq(key, "msg.import_fail") {
        Some("Import misslyckades")
    } else if str_eq(key, "panel.cleaning_now") {
        Some("Städas nu")
    } else if str_eq(key, "panel.within_6h") {
        Some("Inom 6 timmar")
    } else if str_eq(key, "panel.within_1d") {
        Some("Inom 1 dag")
    } else if str_eq(key, "panel.within_1m") {
        Some("Inom 1 månad")
    } else if str_eq(key, "panel.more_than_1m") {
        Some("30+ dagar")
    } else if str_eq(key, "panel.parking_only") {
        Some("Endast parkeringsavgift")
    } else if str_eq(key, "panel.invalid") {
        Some("Ingen städning")
    } else if str_eq(key, "panel.no_addresses") {
        Some("Inga adresser")
    } else if str_eq(key, "addresses.title") {
        Some("Adresser")
    } else if str_eq(key, "addresses.empty") {
        Some("Inga adresser tillagda")
    } else if str_eq(key, "addresses.confirm_remove_title") {
        Some("Bekräfta borttagning")
    } else if str_eq(key, "addresses.confirm_remove_msg") {
        Some("Är du säker på att du vill ta bort denna adress?")
    } else {
        None
    }
}

/// Texts of Swedish group 4 of the keys.
pub open spec fn sv_part4(key: Seq<char>) -> Option<Seq<char>> {
    if key == "confirm_dialog.cancel"@ {
        Some("Avbryt"@)
    } else if key == "confirm_dialog.confirm"@ {
        Some("Ta bort"@)
    } else if key == "info_dialog.title"@ {
        Some("Adressinformation"@)
    } else if key == "info_dialog.street"@ {
        Some("Gata:"@)
    } else if key == "info_dialog.street_number"@ {
        Some("Gatunummer:"@)
    } else if key == "info_dialog.postal_code"@ {
        Some("Postnummer:"@)
    } else if key == "info_dialog.status"@ {
        Some("Status:"@)
    } else if key == "info_dialog.validated"@ {
        Some("Validerad:"@)
    } else if key == "info_dialog.taxa"@ {
        Some("Taxa:"@)
    } else if key == "info_dialog.info"@ {
        Some("Info:"@)
    } else if key == "info_dialog.type"@ {
        Some("Typ:"@)
    } else if key == "info_dialog.spots"@ {
        Some("Platser:"@)
    } else if key == "info_dialog.active"@ {
        Some("Aktiv"@)
    } else if key == "info_dialog.inactive"@ {
        Some("Inaktiv"@)
    } else if key == "info_dialog.yes"@ {
        Some("Ja"@)
    } else if key == "info_dialog.no"@ {
        Some("Nej"@)
    } else if key == "info_dialog.close"@ {
        Some("Stäng"@)
    } else if key == "settings.info.p1"@ {
        Some("Välkommen till amp."@)
    } else if key == "settings.info.p2"@ {
        Some("Vi tar inget ansvar för vad Malmö stad väljer att göra, detta är ett verktyg, inget mer."@)
    } else if key == "settings.info.p3"@ {
        Some("Appen tar data Malmö lägger upp, formaterar den bättre och använder en kopplings algoritm för att skapa en databas som sedan används här för att du som användare förhoppningsvis ska få mindre böter och Malmö ska kunna städa sina gator utan problem. Inget mer, inget mindre."@)
    } else {
        None
    }
}

fn sv_lookup4(key: &str) -> (r: Option<&'static str>)
    ensures
        match sv_part4(key@) {
            Some(t) => r matches Some(s) && s@ == t,
            None => r is None,
        },
{
    if str_eq(key, "confirm_dialog.cancel") {
        Some("Avbryt")
    } else if str_eq(key, "confirm_dialog.confirm") {
        Some("Ta bort")
    } else if str_eq(key, "info_dialog.title") {
        Some("Adressinformation")
    } else if str_eq(key, "info_dialog.street") {
        Some("Gata:")
    } else if str_eq(key, "info_dialog.street_number") {
        Some("Gatunummer:")
    } else if str_eq(key, "info_dialog.postal_code") {
        Some("Postnummer:")
    } else if str_eq(key, "info_dialog.status") {
        Some("Status:")
    } else if str_eq(key, "info_dialog.validated") {
        Some("Validerad:")
    } else if str_eq(key, "info_dialog.taxa") {
        Some("Taxa:")
    } else if str_eq(key, "info_dialog.info") {
        Some("Info:")
    } else if str_eq(key, "info_dialog.type") {
        Some("Typ:")
    } else if str_eq(key, "info_dialog.spots") {
        Some("Platser:")
    } else if str_eq(key, "info_dialog.active") {
        Some("Aktiv")
    } else if str_eq(key, "info_dialog.inactive") {
        Some("Inaktiv")
    } else if str_eq(key, "info_dialog.yes") {
        Some("Ja")
    } else if str_eq(key, "info_dialog.no") {
        Some("Nej")
    } else if str_eq(key, "info_dialog.close") {
        Some("Stäng")
    } else if str_eq(key, "settings.info.p1") {
        Some("Välkommen till amp.")
    } else if str_eq(key, "settings.info.p2") {
        Some("Vi tar inget ansvar för vad Malmö stad väljer att göra, detta är ett verktyg, inget mer.")
    } else if str_eq(key, "settings.info.p3") {
        Some("Appen tar data Malmö lägger upp, formaterar den bättre och använder en kopplings algoritm för att skapa en databas som sedan används här för att du som användare förhoppningsvis ska få mindre böter och Malmö ska kunna städa sina gator utan problem. Inget mer, inget mindre.")
    } else {
        None
    }
}

/// Texts of Swedish group 5 of the keys.
pub open spec fn sv_part5(key: Seq<char>) -> Option<Seq<char>> {
    if key == "settings.info.p4"@ {
        Some("Hantering av dagar 29 och 30 i Februari är oklart då Malmös system deklarerar data med en dag i månaden mellan 1 och 30 per datapunkt. Detta innebär bland annat att ingen städning ska hända enligt dem den 31 i månader med det datumet. De säger inget om hur månaden Februari hanteras vare sig under vanliga år eller skottår. Nu ignoreras de relevanta adresserna för månad Februari och hamnar istället i nästa månad. Är detta rätt? Ingen aning!"@)
    } else if key == "settings.info.p5"@ {
        Some("Målet är att inte kräva någon internet uppkoppling i appen men för närvarande pga. UI systemet jag använder så kommer appen krascha om jag inte har nätverks rättigheter. All komplicerad koppling sker på en server som skickar en universell app uppdatering när Malmös data uppdateras."@)
    } else {
        None
    }
}

fn sv_lookup5(key: &str) -> (r: Option<&'static str>)
    ensures
        match sv_part5(key@) {
            Some(t) => r matches Some(s) && s@ == t,
            None => r is None,
        },
{
    if str_eq(key, "settings.info.p4") {
        Some("Hantering av dagar 29 och 30 i Februari är oklart då Malmös system deklarerar data med en dag i månaden mellan 1 och 30 per datapunkt. Detta innebär bland annat att ingen städning ska hända enligt dem den 31 i månader med det datumet. De säger inget om hur månaden Februari hanteras vare sig under vanliga år eller skottår. Nu ignoreras de relevanta adresserna för månad Februari och hamnar istället i nästa månad. Är detta rätt? Ingen aning!")
    } else if str_eq(key, "settings.info.p5") {
        Some("Målet är att inte kräva någon internet uppkoppling i appen men för närvarande pga. UI systemet jag använder så kommer appen krascha om jag inte har nätverks rättigheter. All komplicerad koppling sker på en server som skickar en universell app uppdatering när Malmös data uppdateras.")
    } else {
        None
    }
}

/// The Swedish text registered for `key`, if any.
pub open spec fn swedish_text(key: Seq<char>) -> Option<Seq<char>> {
    let p0 = sv_part0(key);
    if p0 is Some {
        p0
    } else {
    let p1 = sv_part1(key);
    if p1 is Some {
        p1
    } else {
    let p2 = sv_part2(key);
    if p2 is Some {
        p2
    } else {
    let p3 = sv_part3(key);
    if p3 is Some {
        p3
    } else {
    let p4 = sv_part4(key);
    if p4 is Some {
        p4
    } else {
    sv_part5(key)
    }}}}}
}

fn t_sv(key: &str) -> (r: Option<&'static str>)
    ensures
        match swedish_text(key@) {
            Some(t) => r matches Some(s) && s@ == t,
            None => r is None,
        },
{
    if let Some(s) = sv_lookup0(key) {
        return Some(s);
    }
    if let Some(s) = sv_lookup1(key) {
        return Some(s);
    }
    if let Some(s) = sv_lookup2(key) {
        return Some(s);
    }
    if let Some(s) = sv_lookup3(key) {
        return Some(s);
    }
    if let Some(s) = sv_lookup4(key) {
        return Some(s);
    }
    sv_lookup5(key)
}

/// Texts of English group 0 of the keys.
pub open spec fn en_part0(key: Seq<char>) -> Option<Seq<char>> {
    if key == "topbar.address_placeholder"@ {
        Some("Address"@)
    } else if key == "topbar.postal_placeholder"@ {
        Some("Postal code (optional)"@)
    } else if key == "topbar.add"@ {
        Some("Add"@)
    } else if key == "topbar.settings_title"@ {
        Some("Settings"@)
    } else if key == "topbar.gps_error_title"@ {
        Some("GPS error"@)
    } else if key == "topbar.gps_not_found"@ {
        Some("No address found within 20 m of your GPS position."@)
    } else if key == "topbar.gps_no_permission"@ {
        Some("Could not read GPS position. Check that location permission is granted and try again."@)
    } else if key == "topbar.ok"@ {
        Some("OK"@)
    } else if key == "settings.title"@ {
        Some("Settings"@)
    } else if key == "settings.issue_report.label"@ {
        Some("Issue report"@)
    } else if key == "settings.issue_report.desc"@ {
        Some("Go to a webpage to report issues or share ideas"@)
    } else if key == "settings.import_export.title"@ {
        Some("Import / Export"@)
    } else if key == "settings.import_export.addresses_heading"@ {
        Some("Addresses"@)
    } else if key == "settings.import_export.export_label"@ {
        Some("Export"@)
    } else if key == "settings.import_export.export_addr_desc"@ {
        Some("Save addresses to file"@)
    } else if key == "settings.import_export.import_label"@ {
        Some("Import"@)
    } else if key == "settings.import_export.import_addr_desc"@ {
        Some("Load addresses from file"@)
    } else if key == "settings.import_export.settings_heading"@ {
        Some("Settings"@)
    } else if key == "settings.import_export.export_sett_desc"@ {
        Some("Save settings to file"@)
    } else if key == "settings.import_export.import_sett_desc"@ {
        Some("Load settings from file"@)
    } else {
        None
    }
}

fn en_lookup0(key: &str) -> (r: Option<&'static str>)
    ensures
        match en_part0(key@) {
            Some(t) => r matches Some(s) && s@ == t,
            None => r is None,
        },
{
    if str_eq(key, "topbar.address_placeholder") {
        Some("Address")
    } else if str_eq(key, "topbar.postal_placeholder") {
        Some("Postal code (optional)")
    } else if str_eq(key, "topbar.add") {
        Some("Add")
    } else if str_eq(key, "topbar.settings_title") {
        Some("Settings")
    } else if str_eq(key, "topbar.gps_error_title") {
        Some("GPS error")
    } else if str_eq(key, "topbar.gps_not_found") {
        Some("No address found within 20 m of your GPS position.")
    } else if str_eq(key, "topbar.gps_no_permission") {
        Some("Could not read GPS position. Check that location permission is granted and try again.")
    } else if str_eq(key, "topbar.ok") {
        Some("OK")
    } else if str_eq(key, "settings.title") {
        Some("Settings")
    } else if str_eq(key, "settings.issue_report.label") {
        Some("Issue report")
    } else if str_eq(key, "settings.issue_report.desc") {
        Some("Go to a webpage to report issues or share ideas")
    } else if str_eq(key, "settings.import_export.title") {
        Some("Import / Export")
    } else if str_eq(key, "settings.import_export.addresses_heading") {
        Some("Addresses")
    } else if str_eq(key, "settings.import_export.export_label") {
        Some("Export")
    } else if str_eq(key, "settings.import_export.export_addr_desc") {
        Some("Save addresses to file")
    } else if str_eq(key, "settings.import_export.import_label") {
        Some("Import")
    } else if str_eq(key, "settings.import_export.import_addr_desc") {
        Some("Load addresses from file")
    } else if str_eq(key, "settings.import_export.settings_heading") {
        Some("Settings")
    } else if str_eq(key, "settings.import_export.export_sett_desc") {
        Some("Save settings to file")
    } else if str_eq(key, "settings.import_export.import_sett_desc") {
        Some("Load settings from file")
    } else {
        None
    }
}

/// Texts of English group 1 of the keys.
pub open spec fn en_part1(key: Seq<char>) -> Option<Seq<char>> {
    if key == "settings.notifications.title"@ {
        Some("Notifications"@)
    } else if key == "settings.notifications.now_label"@ {
        Some("Cleaning now"@)
    } else if key == "settings.notifications.now_desc"@ {
        Some("Notify when street cleaning is happening"@)
    } else if key == "settings.notifications.6h_label"@ {
        Some("6 hours"@)
    } else if key == "settings.notifications.6h_desc"@ {
        Some("Notify 6 hours before street cleaning"@)
    } else if key == "settings.notifications.1d_label"@ {
        Some("1 day"@)
    } else if key == "settings.notifications.1d_desc"@ {
        Some("Notify 1 day before street cleaning"@)
    } else if key == "settings.settings.title"@ {
        Some("Settings"@)
    } else if key == "settings.settings.datasource_heading"@ {
        Some("Data source"@)
    } else if key == "settings.settings.both_label"@ {
        Some("Miljö + Parking"@)
    } else if key == "settings.settings.both_desc"@ {
        Some("Default"@)
    } else if key == "settings.settings.miljo_label"@ {
        Some("Miljö"@)
    } else if key == "settings.settings.miljo_desc"@ {
        Some("Street cleaning only"@)
    } else if key == "settings.settings.parkering_label"@ {
        Some("Parking"@)
    } else if key == "settings.settings.parkering_desc"@ {
        Some("Parking zones only"@)
    } else if key == "settings.settings.all_label"@ {
        Some("All addresses"@)
    } else if key == "settings.settings.all_desc"@ {
        Some("All ~60k addresses in Malmö (may be slow)"@)
    } else if key == "settings.settings.darkmode_label"@ {
        Some("Dark mode"@)
    } else if key == "settings.settings.darkmode_desc"@ {
        Some("Toggle dark/light theme"@)
    } else if key == "settings.settings.language_heading"@ {
        Some("Language"@)
    } else {
        None
    }
}

fn en_lookup1(key: &str) -> (r: Option<&'static str>)
    ensures
        match en_part1(key@) {
            Some(t) => r matches Some(s) && s@ == t,
            None => r is None,
        },
{
    if str_eq(key, "settings.notifications.title") {
        Some("Notifications")
    } else if str_eq(key, "settings.notifications.now_label") {
        Some("Cleaning now")
    } else if str_eq(key, "settings.notifications.now_desc") {
        Some("Notify when street cleaning is happening")
    } else if str_eq(key, "settings.notifications.6h_label") {
        Some("6 hours")
    } else if str_eq(key, "settings.notifications.6h_desc") {
        Some("Notify 6 hours before street cleaning")
    } else if str_eq(key, "settings.notifications.1d_label") {
        Some("1 day")
    } else if str_eq(key, "settings.notifications.1d_desc") {
        Some("Notify 1 day before street cleaning")
    } else if str_eq(key, "settings.settings.title") {
        Some("Settings")
    } else if str_eq(key, "settings.settings.datasource_heading") {
        Some("Data source")
    } else if str_eq(key, "settings.settings.both_label") {
        Some("Miljö + Parking")
    } else if str_eq(key, "settings.settings.both_desc") {
        Some("Default")
    } else if str_eq(key, "settings.settings.miljo_label") {
        Some("Miljö")
    } else if str_eq(key, "settings.settings.miljo_desc") {
        Some("Street cleaning only")
    } else if str_eq(key, "settings.settings.parkering_label") {
        Some("Parking")
    } else if str_eq(key, "settings.settings.parkering_desc") {
        Some("Parking zones only")
    } else if str_eq(key, "settings.settings.all_label") {
        Some("All addresses")
    } else if str_eq(key, "settings.settings.all_desc") {
        Some("All ~60k addresses in Malmö (may be slow)")
    } else if str_eq(key, "settings.settings.darkmode_label") {
        Some("Dark mode")
    } else if str_eq(key, "settings.settings.darkmode_desc") {
        Some("Toggle dark/light theme")
    } else if str_eq(key, "settings.settings.language_heading") {
        Some("Language")
    } else {
        None
    }
}

/// Texts of English group 2 of the keys.
pub open spec fn en_part2(key: Seq<char>) -> Option<Seq<char>> {
    if key == "settings.settings.lang_sv"@ {
        Some("Svenska"@)
    } else if key == "settings.settings.lang_en"@ {
        Some("English"@)
    } else if key == "settings.info.title"@ {
        Some("Info"@)
    } else if key == "settings.info.about_heading"@ {
        Some("About the app"@)
    } else if key == "settings.debug.title"@ {
        Some("Debug"@)
    } else if key == "settings.debug.addresses_label"@ {
        Some("Debug addresses"@)
    } else if key == "settings.debug.addresses_desc"@ {
        Some("Show debug info for addresses"@)
    } else if key == "settings.debug.test_now_label"@ {
        Some("Test cleaning now"@)
    } else if key == "settings.debug.test_now_desc"@ {
        Some("Send active cleaning notification"@)
    } else if key == "settings.debug.test_6h_label"@ {
        Some("Test 6 hours"@)
    } else if key == "settings.debug.test_6h_desc"@ {
        Some("Send 6-hour warning"@)
    } else if key == "settings.debug.test_1d_label"@ {
        Some("Test 1 day"@)
    } else if key == "settings.debug.test_1d_desc"@ {
        Some("Send 1-day reminder"@)
    } else if key == "dialog.confirm_import.title"@ {
        Some("Confirm import"@)
    } else if key == "dialog.confirm_import.body"@ {
        Some("This will replace all current data. Do you want to continue?"@)
    } else if key == "dialog.confirm_import.cancel"@ {
        Some("Cancel"@)
    } else if key == "dialog.confirm_import.ok"@ {
        Some("Import"@)
    } else if key == "dialog.error.title"@ {
        Some("Error"@)
    } else if key == "dialog.ok"@ {
        Some("OK"@)
    } else if key == "dialog.success.title"@ {
        Some("Done"@)
    } else {
        None
    }
}

fn en_lookup2(key: &str) -> (r: Option<&'static str>)
    ensures
        match en_part2(key@) {
            Some(t) => r matches Some(s) && s@ == t,
            None => r is None,
        },
{
    if str_eq(key, "settings.settings.lang_sv") {
        Some("Svenska")
    } else if str_eq(key, "settings.settings.lang_en") {
        Some("English")
    } else if str_eq(key, "settings.info.title") {
        Some("Info")
    } else if str_eq(key, "settings.info.about_heading") {
        Some("About the app")
    } else if str_eq(key, "settings.debug.title") {
        Some("Debug")
    } else if str_eq(key, "settings.debug.addresses_label") {
        Some("Debug addresses")
    } else if str_eq(key, "settings.debug.addresses_desc") {
        Some("Show debug info for addresses")
    } else if str_eq(key, "settings.debug.test_now_label") {
        Some("Test cleaning now")
    } else if str_eq(key, "settings.debug.test_now_desc") {
        Some("Send active cleaning notification")
    } else if str_eq(key, "settings.debug.test_6h_label") {
        Some("Test 6 hours")
    } else if str_eq(key, "settings.debug.test_6h_desc") {
        Some("Send 6-hour warning")
    } else if str_eq(key, "settings.debug.test_1d_label") {
        Some("Test 1 day")
    } else if str_eq(key, "settings.debug.test_1d_desc") {
        Some("Send 1-day reminder")
    } else if str_eq(key, "dialog.confirm_import.title") {
        Some("Confirm import")
    } else if str_eq(key, "dialog.confirm_import.body") {
        Some("This will replace all current data. Do you want to continue?")
    } else if str_eq(key, "dialog.confirm_import.cancel") {
        Some("Cancel")
    } else if str_eq(key, "dialog.confirm_import.ok") {
        Some("Import")
    } else if str_eq(key, "dialog.error.title") {
        Some("Error")
    } else if str_eq(key, "dialog.ok") {
        Some("OK")
    } else if str_eq(key, "dialog.success.title") {
        Some("Done")
    } else {
        None
    }
}

/// Texts of English group 3 of the keys.
pub open spec fn en_part3(key: Seq<char>) -> Option<Seq<char>> {
    if key == "msg.export_success.addresses"@ {
        Some("Addresses exported!"@)
    } else if key == "msg.export_success.settings"@ {
        Some("Settings exported!"@)
    } else if key == "msg.export_fail"@ {
        Some("Export failed"@)
    } else if key == "msg.export_no_addr_file"@ {
        Some("Could not find address file"@)
    } else if key == "msg.export_no_sett_file"@ {
        Some("Could not find settings file"@)
    } else if key == "msg.import_success.addresses"@ {
        Some("Addresses imported!"@)
    } else if key == "msg.import_success.settings"@ {
        Some("Settings imported!"@)
    } else if key == "msg.import_fail"@ {
        Some("Import failed"@)
    } else if key == "panel.cleaning_now"@ {
        Some("Cleaning now"@)
    } else if key == "panel.within_6h"@ {
        Some("Within 6 hours"@)
    } else if key == "panel.within_1d"@ {
        Some("Within 1 day"@)
    } else if key == "panel.within_1m"@ {
        Some("Within 1 month"@)
    } else if key == "panel.more_than_1m"@ {
        Some("30+ days"@)
    } else if key == "panel.parking_only"@ {
        Some("Parking fee only"@)
    } else if key == "panel.invalid"@ {
        Some("No cleaning"@)
    } else if key == "panel.no_addresses"@ {
        Some("No addresses"@)
    } else if key == "addresses.title"@ {
        Some("Addresses"@)
    } else if key == "addresses.empty"@ {
        Some("No addresses added"@)
    } else if key == "addresses.confirm_remove_title"@ {
        Some("Confirm removal"@)
    } else if key == "addresses.confirm_remove_msg"@ {
        Some("Are you sure you want to remove this address?"@)
    } else {
        None
    }
}

fn en_lookup3(key: &str) -> (r: Option<&'static str>)
    ensures
        match en_part3(key@) {
            Some(t) => r matches Some(s) && s@ == t,
            None => r is None,
        },
{
    if str_eq(key, "msg.export_success.addresses") {
        Some("Addresses exported!")
    } else if str_eq(key, "msg.export_success.settings") {
        Some("Settings exported!")
    } else if str_eq(key, "msg.export_fail") {
        Some("Export failed")
    } else if str_eq(key, "msg.export_no_addr_file") {
        Some("Could not find address file")
    } else if str_eq(key, "msg.export_no_sett_file") {
        Some("Could not find settings file")
    } else if str_eq(key, "msg.import_success.addresses") {
        Some("Addresses imported!")
    } else if str_eq(key, "msg.import_success.settings") {
        Some("Settings imported!")
    } else if str_eq(key, "msg.import_fail") {
        Some("Import failed")
    } else if str_eq(key, "panel.cleaning_now") {
        Some("Cleaning now")
    } else if str_eq(key, "panel.within_6h") {
        Some("Within 6 hours")
    } else if str_eq(key, "panel.within_1d") {
        Some("Within 1 day")
    } else if str_eq(key, "panel.within_1m") {
        Some("Within 1 month")
    } else if str_eq(key, "panel.more_than_1m") {
        Some("30+ days")
    } else if str_eq(key, "panel.parking_only") {
        Some("Parking fee only")
    } else if str_eq(key, "panel.invalid") {
        Some("No cleaning")
    } else if str_eq(key, "panel.no_addresses") {
        Some("No addresses")
    } else if str_eq(key, "addresses.title") {
        Some("Addresses")
    } else if str_eq(key, "addresses.empty") {
        Some("No addresses added")
    } else if str_eq(key, "addresses.confirm_remove_title") {
        Some("Confirm removal")
    } else if str_eq(key, "addresses.confirm_remove_msg") {
        Some("Are you sure you want to remove this address?")
    } else {
        None
    }
}

/// Texts of English group 4 of the keys.
pub open spec fn en_part4(key: Seq<char>) -> Option<Seq<char>> {
    if key == "confirm_dialog.cancel"@ {
        Some("Cancel"@)
    } else if key == "confirm_dialog.confirm"@ {
        Some("Remove"@)
    } else if key == "info_dialog.title"@ {
        Some("Address information"@)
    } else if key == "info_dialog.street"@ {
        Some("Street:"@)
    } else if key == "info_dialog.street_number"@ {
        Some("Street number:"@)
    } else if key == "info_dialog.postal_code"@ {
        Some("Postal code:"@)
    } else if key == "info_dialog.status"@ {
        Some("Status:"@)
    } else if key == "info_dialog.validated"@ {
        Some("Validated:"@)
    } else if key == "info_dialog.taxa"@ {
        Some("Taxa:"@)
    } else if key == "info_dialog.info"@ {
        Some("Info:"@)
    } else if key == "info_dialog.type"@ {
        Some("Type:"@)
    } else if key == "info_dialog.spots"@ {
        Some("Spots:"@)
    } else if key == "info_dialog.active"@ {
        Some("Active"@)
    } else if key == "info_dialog.inactive"@ {
        Some("Inactive"@)
    } else if key == "info_dialog.yes"@ {
        Some("Yes"@)
    } else if key == "info_dialog.no"@ {
        Some("No"@)
    } else if key == "info_dialog.close"@ {
        Some("Close"@)
    } else if key == "settings.info.p1"@ {
        Some("Welcome to amp."@)
    } else if key == "settings.info.p2"@ {
        Some("We take no responsibility for what the city of Malmö chooses to do, this is a tool, nothing more."@)
    } else if key == "settings.info.p3"@ {
        Some("The app takes data Malmö publishes, formats it better and uses a correlation algorithm to create a database which is then used here so that you as a user hopefully get fewer fines and Malmö can clean its streets without problems. Nothing more, nothing less."@)
    } else {
        None
    }
}

fn en_lookup4(key: &str) -> (r: Option<&'static str>)
    ensures
        match en_part4(key@) {
            Some(t) => r matches Some(s) && s@ == t,
            None => r is None,
        },
{
    if str_eq(key, "confirm_dialog.cancel") {
        Some("Cancel")
    } else if str_eq(key, "confirm_dialog.confirm") {
        Some("Remove")
    } else if str_eq(key, "info_dialog.title") {
        Some("Address information")
    } else if str_eq(key, "info_dialog.street") {
        Some("Street:")
    } else if str_eq(key, "info_dialog.street_number") {
        Some("Street number:")
    } else if str_eq(key, "info_dialog.postal_code") {
        Some("Postal code:")
    } else if str_eq(key, "info_dialog.status") {
        Some("Status:")
    } else if str_eq(key, "info_dialog.validated") {
        Some("Validated:")
    } else if str_eq(key, "info_dialog.taxa") {
        Some("Taxa:")
    } else if str_eq(key, "info_dialog.info") {
        Some("Info:")
    } else if str_eq(key, "info_dialog.type") {
        Some("Type:")
    } else if str_eq(key, "info_dialog.spots") {
        Some("Spots:")
    } else if str_eq(key, "info_dialog.active") {
        Some("Active")
    } else if str_eq(key, "info_dialog.inactive") {
        Some("Inactive")
    } else if str_eq(key, "info_dialog.yes") {
        Some("Yes")
    } else if str_eq(key, "info_dialog.no") {
        Some("No")
    } else if str_eq(key, "info_dialog.close") {
        Some("Close")
    } else if str_eq(key, "settings.info.p1") {
        Some("Welcome to amp.")
    } else if str_eq(key, "settings.info.p2") {
        Some("We take no responsibility for what the city of Malmö chooses to do, this is a tool, nothing more.")
    } else if str_eq(key, "settings.info.p3") {
        Some("The app takes data Malmö publishes, formats it better and uses a correlation algorithm to create a database which is then used here so that you as a user hopefully get fewer fines and Malmö can clean its streets without problems. Nothing more, nothing less.")
    } else {
        None
    }
}

/// Texts of English group 5 of the keys.
pub open spec fn en_part5(key: Seq<char>) -> Option<Seq<char>> {
    if key == "settings.info.p4"@ {
        Some("Handling of days 29 and 30 in February is unclear as Malmö's system declares data with a day of month between 1 and 30 per data point. This means among other things that no cleaning should happen according to them on the 31st in months with that date. They say nothing about how the month of February is handled in either regular years or leap years. The relevant addresses for February are currently ignored and end up in the next month instead. Is this correct? No idea!"@)
    } else if key == "settings.info.p5"@ {
        Some("The goal is to not require any internet connection in the app but currently due to the UI system used the app will crash without network permissions. All complex correlation happens on a server that sends a universal app update when Malmö's data is updated."@)
    } else {
        None
    }
}

fn en_lookup5(key: &str) -> (r: Option<&'static str>)
    ensures
        match en_part5(key@) {
            Some(t) => r matches Some(s) && s@ == t,
            None => r is None,
        },
{
    if str_eq(key, "settings.info.p4") {
        Some("Handling of days 29 and 30 in February is unclear as Malmö's system declares data with a day of month between 1 and 30 per data point. This means among other things that no cleaning should happen according to them on the 31st in months with that date. They say nothing about how the month of February is handled in either regular years or leap years. The relevant addresses for February are currently ignored and end up in the next month instead. Is this correct? No idea!")
    } else if str_eq(key, "settings.info.p5") {
        Some("The goal is to not require any internet connection in the app but currently due to the UI system used the app will crash without network permissions. All complex correlation happens on a server that sends a universal app update when Malmö's data is updated.")
    } else {
        None
    }
}

/// The English text registered for `key`, if any.
pub open spec fn english_text(key: Seq<char>) -> Option<Seq<char>> {
    let p0 = en_part0(key);
    if p0 is Some {
        p0
    } else {
    let p1 = en_part1(key);
    if p1 is Some {
        p1
    } else {
    let p2 = en_part2(key);
    if p2 is Some {
        p2
    } else {
    let p3 = en_part3(key);
    if p3 is Some {
        p3
    } else {
    let p4 = en_part4(key);
    if p4 is Some {
        p4
    } else {
    en_part5(key)
    }}}}}
}

fn t_en(key: &str) -> (r: Option<&'static str>)
    ensures
        match english_text(key@) {
            Some(t) => r matches Some(s) && s@ == t,
            None => r is None,
        },
{
    if let Some(s) = en_lookup0(key) {
        return Some(s);
    }
    if let Some(s) = en_lookup1(key) {
        return Some(s);
    }
    if let Some(s) = en_lookup2(key) {
        return Some(s);
    }
    if let Some(s) = en_lookup3(key) {
        return Some(s);
    }
    if let Some(s) = en_lookup4(key) {
        return Some(s);
    }
    en_lookup5(key)
}

/// Text shown for `key` in `lang`: English for English, Swedish for every other
/// language, and the key itself when no text is registered for it.
pub open spec fn translation(key: Seq<char>, lang: Language) -> Seq<char> {
    let entry = match lang {
        Language::English => english_text(key),
        _ => swedish_text(key),
    };
    match entry {
        Some(t) => t,
        None => key,
    }
}

/// The localised text for `key`; the key itself when no text is registered.
pub fn t<'a>(key: &'a str, lang: &Language) -> (r: &'a str)
    ensures
        r@ == translation(key@, *lang),
{
    let entry = match lang {
        Language::English => t_en(key),
        _ => t_sv(key),
    };
    match entry {
        Some(s) => s,
        None => key,
    }
}

} // verus!
