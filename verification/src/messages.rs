//! What the user is told when something fails. A text that ends in a colon or a bracket is
//! followed by the reason.

use vstd::prelude::*;

verus! {

pub const SHORT_PASSWORD: &'static str = "La password deve contenere almeno 12 caratteri.";

pub const NO_RANDOMNESS: &'static str = "Impossibile ottenere casualità sicura dal sistema: ";

pub const UNSUPPORTED_KDF: &'static str = "Formato chiavi FEED non supportato.";

pub const INVALID_SALT: &'static str = "Archivio FEED danneggiato: salt non valido.";

pub const SHORT_SALT: &'static str = "Archivio FEED danneggiato: salt troppo corto.";

pub const INVALID_PARAMS: &'static str = "Parametri Argon2 non validi: ";

pub const UNDERIVED_KEY: &'static str = "Impossibile derivare la chiave di protezione: ";

pub const UNUSABLE_CIPHER: &'static str = "Impossibile inizializzare la protezione delle chiavi.";

pub const UNWRAPPABLE_KEY: &'static str = "Impossibile proteggere le chiavi dell'archivio.";

pub const INVALID_NONCE: &'static str = "Archivio FEED danneggiato: nonce non valido.";

pub const INVALID_CIPHERTEXT: &'static str =
    "Archivio FEED danneggiato: chiave protetta non valida.";

pub const WRONG_PASSWORD: &'static str = "Password non valida o archivio FEED danneggiato.";

pub const INVALID_KEY_LEN: &'static str = "Archivio FEED danneggiato: lunghezza chiave non valida.";

pub const UNREADABLE_ENVELOPE: &'static str = "Impossibile leggere le chiavi dell'archivio: ";

pub const MALFORMED_ENVELOPE: &'static str = "Archivio FEED danneggiato: envelope non valido (";

pub const UNSUPPORTED_VERSION: &'static str = "Versione archivio FEED non supportata: ";

pub const UNOPENED_DATABASE: &'static str = "Impossibile aprire il database cifrato: ";

pub const UNSET_KEY: &'static str = "Impossibile impostare la chiave SQLCipher: ";

pub const UNCONFIGURED_DATABASE: &'static str = "Impossibile configurare SQLCipher: ";

pub const UNREADABLE_DATABASE: &'static str = "Database FEED non leggibile o chiave non valida.";

pub const NO_DATA_SCHEMA: &'static str = "Impossibile inizializzare il database dati: ";

pub const NO_IDENTITY_SCHEMA: &'static str = "Impossibile inizializzare il database identità: ";

pub const UNLOCATED_DIR: &'static str = "Impossibile determinare la cartella dati: ";

pub const INCOMPLETE_STORE: &'static str =
    "Archivio FEED incompleto: alcuni file risultano mancanti. Non crearne uno nuovo sopra questi dati.";

pub const UNREAD_PERMISSIONS: &'static str = "Impossibile leggere i permessi dell'archivio: ";

pub const UNSET_PERMISSIONS: &'static str = "Impossibile proteggere i permessi dell'archivio: ";

pub const INVALID_PATH: &'static str = "Percorso dell'archivio FEED non valido.";

pub const UNSERIALIZED_ENVELOPE: &'static str =
    "Impossibile serializzare le chiavi dell'archivio: ";

pub const UNSAVED_ENVELOPE: &'static str = "Impossibile salvare le chiavi dell'archivio: ";

pub const UNFINISHED_ENVELOPE: &'static str = "Impossibile finalizzare le chiavi dell'archivio: ";

pub const UNMADE_DIR: &'static str = "Impossibile creare la cartella dati: ";

pub const EXISTING_STORE: &'static str = "Un archivio FEED esiste già su questo dispositivo.";

pub const MISSING_STORE: &'static str =
    "Archivio FEED non inizializzato o incompleto su questo dispositivo.";

pub const UNAVAILABLE_STATE: &'static str = "Stato del database non disponibile.";

pub const INVALID_TARGET: &'static str = "Percorso della Scansione non valido.";

pub const ALREADY_OPEN: &'static str =
    "Una finestra di Scansione è già aperta. Chiudila prima di avviarne un'altra.";

pub const UNOPENED_WINDOW: &'static str = "Impossibile aprire la finestra di Scansione: ";

pub const UNCLOSED_WINDOW: &'static str = "Impossibile chiudere la finestra di Scansione: ";

pub const UNCONFIGURED_CAMERA: &'static str =
    "Impossibile configurare i permessi della videocamera: ";

}
